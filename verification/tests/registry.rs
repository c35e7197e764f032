use auto_drum::autodrum::{Action, AutoDrum, PulseTiming, RegistrationError};
use auto_drum::configuration::Configuration;
use auto_drum::modifier::ModifierHardwareKind;
use auto_drum::remote_command::Command;
use auto_drum::striker::StrikerData;
use auto_drum::striker_hardware_util::StrikerHardwareKind;
use auto_drum::system_constants::{StrikerConstants, StrikerConstantsMap, SystemConstants};

fn calibration() -> SystemConstants {
    SystemConstants {
        strikers: StrikerConstantsMap {
            SolenoidBig: StrikerConstants {
                min_min_hit_duration: 5_000,
                max_min_hit_duration: 50_000,
                min_max_hit_duration: 10_000,
                max_max_hit_duration: 100_000,
                default_min_hit_duration: 20_000,
                default_max_hit_duration: 60_000,
                increment: 1_000,
            },
            SolenoidSmall: StrikerConstants {
                min_min_hit_duration: 1_000,
                max_min_hit_duration: 10_000,
                min_max_hit_duration: 2_000,
                max_max_hit_duration: 500_000,
                default_min_hit_duration: 4_000,
                default_max_hit_duration: 12_000,
                increment: 500,
            },
        },
    }
}

/// (name, note, pin, min, max) of every exported striker
fn summary(drum: &AutoDrum) -> Vec<(String, u8, u8, Option<u64>, Option<u64>)> {
    drum.export_configuration()
        .strikers
        .iter()
        .map(|s| (s.name.clone(), s.note, s.pin, s.min_hit_duration, s.max_hit_duration))
        .collect()
}

/// Hi-hat on note 42 (pin 5) with two modifiers on 46 (pin 6) and 44 (pin 7),
/// and a kick on note 36 (pin 17).
fn kit(debug: bool) -> AutoDrum {
    let mut drum = AutoDrum::new(calibration(), debug);
    drum.add_striker(36, 17, "Kick", StrikerHardwareKind::SolenoidBig).unwrap();
    drum.add_striker(42, 5, "HiHat", StrikerHardwareKind::SolenoidBig).unwrap();
    drum.add_modifier("HiHat", 46, 6, "Open", ModifierHardwareKind::SolenoidBig).unwrap();
    drum.add_modifier("HiHat", 44, 7, "Pedal", ModifierHardwareKind::SolenoidBig).unwrap();
    drum
}

#[test]
fn new_registry_is_empty() {
    let drum = AutoDrum::new(calibration(), false);
    assert!(summary(&drum).is_empty());
    assert!(!drum.logger().has_data());
    assert_eq!(drum.response(), &vec![0, 0, 0, 0]);
    assert!(!drum.is_debug());
    assert_eq!(drum.constants(), &calibration());
    for note in 0..=255u8 {
        assert!(drum.striker(note).is_none());
        assert!(drum.modifier(note).is_none());
        assert!(drum.enforce_unique_note_num(note).is_ok());
    }
    assert!(AutoDrum::new(calibration(), true).is_debug());
}

#[test]
fn registering_a_striker() {
    let mut drum = AutoDrum::new(calibration(), false);
    assert_eq!(drum.add_striker(36, 17, "Kick", StrikerHardwareKind::SolenoidBig), Ok(()));
    let striker = drum.striker(36).unwrap();
    assert_eq!(striker.name, "Kick");
    assert_eq!(striker.note, 36);
    assert_eq!(striker.pin, 17);
    assert_eq!(striker.kind, StrikerHardwareKind::SolenoidBig);
    assert!(!striker.active);
    assert!(drum.modifier(36).is_none());
    assert_eq!(drum.enforce_unique_note_num(36), Err(RegistrationError::Duplicate));
    assert_eq!(drum.enforce_unique_note_num(37), Ok(()));
    assert_eq!(drum.enforce_unique_name("Kick"), Err(RegistrationError::Duplicate));
    assert_eq!(drum.enforce_unique_name("kick"), Ok(()));
}

#[test]
fn registering_the_same_note_twice_changes_nothing() {
    let mut drum = kit(false);
    drum.hit(46, 100);
    let before = summary(&drum);
    assert_eq!(
        drum.add_striker(36, 99, "Other", StrikerHardwareKind::SolenoidSmall),
        Err(RegistrationError::Duplicate)
    );
    assert_eq!(
        drum.add_striker(46, 99, "Other", StrikerHardwareKind::SolenoidSmall),
        Err(RegistrationError::Duplicate)
    );
    assert_eq!(
        drum.add_modifier("Kick", 36, 99, "Other", ModifierHardwareKind::SolenoidBig),
        Err(RegistrationError::Duplicate)
    );
    assert_eq!(summary(&drum), before);
    assert_eq!(drum.striker(36).unwrap().pin, 17);
    assert_eq!(drum.striker(36).unwrap().name, "Kick");
    assert!(drum.striker(46).is_none());
    assert_eq!(drum.modifier(46).unwrap().pin, 6);
    assert!(drum.modifier(46).unwrap().is_active());
    assert!(drum.striker(42).unwrap().active);
    assert_eq!(drum.enforce_unique_name("Other"), Ok(()));
}

#[test]
fn registering_the_same_name_twice_changes_nothing() {
    let mut drum = kit(false);
    let before = summary(&drum);
    assert_eq!(
        drum.add_striker(50, 9, "Kick", StrikerHardwareKind::SolenoidBig),
        Err(RegistrationError::Duplicate)
    );
    assert_eq!(
        drum.add_striker(50, 9, "Open", StrikerHardwareKind::SolenoidBig),
        Err(RegistrationError::Duplicate)
    );
    assert_eq!(
        drum.add_modifier("Kick", 50, 9, "Pedal", ModifierHardwareKind::SolenoidBig),
        Err(RegistrationError::Duplicate)
    );
    assert_eq!(summary(&drum), before);
    assert!(drum.striker(50).is_none());
    assert!(drum.modifier(50).is_none());
    assert_eq!(drum.enforce_unique_note_num(50), Ok(()));
}

#[test]
fn registering_a_modifier() {
    let drum = kit(false);
    let open = drum.modifier(46).unwrap();
    assert_eq!(open.name, "Open");
    assert_eq!(open.note, 46);
    assert_eq!(open.pin, 6);
    assert!(!open.is_active());
    assert_eq!(drum.modifier_target(46), Some(42));
    assert_eq!(drum.modifier_target(44), Some(42));
    assert_eq!(drum.modifier_target(42), None);
    assert_eq!(drum.modifier_target(1), None);
    assert!(drum.striker(46).is_none());
    assert_eq!(drum.striker_modifiers(42), Some(&vec![46, 44]));
    assert_eq!(drum.striker_modifiers(36), Some(&vec![]));
    assert_eq!(drum.striker_modifiers(46), None);
    assert_eq!(drum.striker_modifiers(1), None);
}

#[test]
fn modifier_needs_a_registered_target() {
    let mut drum = kit(false);
    let before = summary(&drum);
    assert_eq!(
        drum.add_modifier("Ride", 51, 9, "Bell", ModifierHardwareKind::SolenoidBig),
        Err(RegistrationError::UnknownTarget)
    );
    // a modifier is no target
    assert_eq!(
        drum.add_modifier("Open", 51, 9, "Bell", ModifierHardwareKind::SolenoidBig),
        Err(RegistrationError::UnknownTarget)
    );
    assert!(drum.modifier(51).is_none());
    assert_eq!(drum.enforce_unique_note_num(51), Ok(()));
    assert_eq!(drum.enforce_unique_name("Bell"), Ok(()));
    assert_eq!(summary(&drum), before);
    // a collision is reported before the unknown target
    assert_eq!(
        drum.add_modifier("Ride", 36, 9, "Bell", ModifierHardwareKind::SolenoidBig),
        Err(RegistrationError::Duplicate)
    );
    assert_eq!(
        drum.add_modifier("Ride", 51, 9, "Kick", ModifierHardwareKind::SolenoidBig),
        Err(RegistrationError::Duplicate)
    );
    // the rejected modifier can be registered once its target exists
    assert_eq!(drum.add_striker(51, 8, "Ride", StrikerHardwareKind::SolenoidSmall), Ok(()));
    assert_eq!(
        drum.add_modifier("Ride", 53, 9, "Bell", ModifierHardwareKind::SolenoidBig),
        Ok(())
    );
    assert_eq!(drum.modifier_target(53), Some(51));
}

#[test]
fn strike_end_to_end() {
    let mut drum = AutoDrum::new(calibration(), false);
    drum.add_striker(36, 17, "Kick", StrikerHardwareKind::SolenoidBig).unwrap();
    let actions = drum.hit(36, 127);
    assert_eq!(
        actions,
        vec![Action::Pulse { note: 36, pin: 17, duration_us: 120_000, clamped: false }]
    );
    match actions[0] {
        Action::Pulse { duration_us, .. } => {
            assert!(duration_us >= 20_000);
            assert!(duration_us <= 400_000);
        },
        _ => unreachable!(),
    }
    assert!(drum.striker(36).unwrap().active);
    drum.pulse_finished(36, None);
    assert!(!drum.striker(36).unwrap().active);
    assert!(!drum.logger().has_data());
}

#[test]
fn strike_is_clamped_to_the_limit() {
    let mut drum = AutoDrum::new(calibration(), false);
    drum.add_striker(38, 27, "Snare", StrikerHardwareKind::SolenoidSmall).unwrap();
    assert_eq!(
        drum.hit(38, 127),
        vec![Action::Pulse { note: 38, pin: 27, duration_us: 400_000, clamped: true }]
    );
    drum.pulse_finished(38, None);
    assert_eq!(
        drum.hit(38, 0),
        vec![Action::Pulse { note: 38, pin: 27, duration_us: 4_000, clamped: false }]
    );
}

#[test]
fn striking_a_busy_striker_is_ignored() {
    let mut drum = kit(false);
    assert_eq!(drum.hit(36, 10).len(), 1);
    for velocity in [0u8, 10, 127, 255] {
        assert_eq!(drum.hit(36, velocity), vec![Action::Ignored { note: 36 }]);
        assert!(drum.striker(36).unwrap().active);
    }
    // another striker is not held up
    assert_eq!(
        drum.hit(42, 0),
        vec![
            Action::Deactivate { pin: 6 },
            Action::Deactivate { pin: 7 },
            Action::Pulse { note: 42, pin: 5, duration_us: 20_000, clamped: false },
        ]
    );
    drum.pulse_finished(36, None);
    assert_eq!(
        drum.hit(36, 0),
        vec![Action::Pulse { note: 36, pin: 17, duration_us: 20_000, clamped: false }]
    );
}

#[test]
fn direct_strike_releases_the_modifiers() {
    let mut drum = kit(false);
    drum.hit(46, 64);
    drum.pulse_finished(42, None);
    drum.hit(44, 64);
    drum.pulse_finished(42, None);
    assert!(drum.modifier(46).unwrap().is_active());
    assert!(drum.modifier(44).unwrap().is_active());
    let actions = drum.hit(42, 127);
    assert_eq!(
        actions,
        vec![
            Action::Deactivate { pin: 6 },
            Action::Deactivate { pin: 7 },
            Action::Pulse { note: 42, pin: 5, duration_us: 120_000, clamped: false },
        ]
    );
    assert!(!drum.modifier(46).unwrap().is_active());
    assert!(!drum.modifier(44).unwrap().is_active());
    // also while the striker is busy
    drum.hit(46, 64);
    assert!(drum.modifier(46).unwrap().is_active());
    assert_eq!(
        drum.hit(42, 127),
        vec![
            Action::Deactivate { pin: 6 },
            Action::Deactivate { pin: 7 },
            Action::Ignored { note: 42 },
        ]
    );
    assert!(!drum.modifier(46).unwrap().is_active());
    // the modifiers of another striker stay as they are
    drum.add_modifier("Kick", 35, 18, "Soft", ModifierHardwareKind::SolenoidBig).unwrap();
    drum.hit(35, 1);
    drum.pulse_finished(42, None);
    assert_eq!(
        drum.hit(42, 0),
        vec![
            Action::Deactivate { pin: 6 },
            Action::Deactivate { pin: 7 },
            Action::Pulse { note: 42, pin: 5, duration_us: 20_000, clamped: false },
        ]
    );
    assert!(drum.modifier(35).unwrap().is_active());
}

#[test]
fn modifier_note_activates_then_strikes_the_target() {
    let mut drum = kit(false);
    assert_eq!(
        drum.hit(46, 127),
        vec![
            Action::Activate { pin: 6 },
            Action::Pulse { note: 42, pin: 5, duration_us: 120_000, clamped: false },
        ]
    );
    assert!(drum.modifier(46).unwrap().is_active());
    assert!(!drum.modifier(44).unwrap().is_active());
    assert!(drum.striker(42).unwrap().active);
    // the target is busy: the modifier is activated all the same
    assert_eq!(
        drum.hit(44, 127),
        vec![Action::Activate { pin: 7 }, Action::Ignored { note: 42 }]
    );
    assert!(drum.modifier(44).unwrap().is_active());
    assert!(drum.modifier(46).unwrap().is_active());
}

#[test]
fn unknown_note_does_nothing() {
    let mut drum = kit(false);
    assert_eq!(drum.hit(1, 127), vec![]);
    assert_eq!(drum.hit_with_debug(1, 127, (0x90, 1, 127)), vec![]);
    assert_eq!(drum.note_off(1), vec![]);
    drum.pulse_finished(1, Some(PulseTiming { time: 5, actual_duration_ns: 7 }));
    assert!(!drum.logger().has_data());
    assert!(!drum.striker(36).unwrap().active);
}

#[test]
fn note_off_deactivates_a_modifier_only() {
    let mut drum = kit(false);
    drum.hit(46, 127);
    assert_eq!(drum.note_off(42), vec![]);
    assert!(drum.striker(42).unwrap().active);
    assert!(drum.modifier(46).unwrap().is_active());
    assert_eq!(drum.note_off(46), vec![Action::Deactivate { pin: 6 }]);
    assert!(!drum.modifier(46).unwrap().is_active());
    assert!(drum.striker(42).unwrap().active);
    assert_eq!(drum.note_off(46), vec![Action::Deactivate { pin: 6 }]);
    assert!(!drum.modifier(46).unwrap().is_active());
}

#[test]
fn handle_note_goes_by_the_status() {
    let mut drum = kit(false);
    assert_eq!(
        drum.handle_note((0x90, 36, 127)),
        vec![Action::Pulse { note: 36, pin: 17, duration_us: 120_000, clamped: false }]
    );
    assert_eq!(drum.handle_note((0x80, 36, 0)), vec![]);
    assert!(drum.striker(36).unwrap().active);
    assert_eq!(drum.handle_note((0xB0, 36, 127)), vec![]);
    assert_eq!(drum.handle_note((0x00, 46, 127)), vec![]);
    assert_eq!(
        drum.handle_note((0x90, 46, 0)),
        vec![
            Action::Activate { pin: 6 },
            Action::Pulse { note: 42, pin: 5, duration_us: 20_000, clamped: false },
        ]
    );
    assert_eq!(drum.handle_note((0x80, 46, 0)), vec![Action::Deactivate { pin: 6 }]);
}

#[test]
fn midi_command_handles_each_event_in_order() {
    let mut drum = kit(false);
    let actions = drum.handle_midi_command(&vec![
        0x85, 0xC1, 0x90, 46, 127, 36, 0, 0xC2, 0x80, 46, 0, 0xC3, 0x90, 36, 5, 9, 9,
    ]);
    assert_eq!(
        actions,
        vec![
            Action::Activate { pin: 6 },
            Action::Pulse { note: 42, pin: 5, duration_us: 120_000, clamped: false },
            Action::Pulse { note: 36, pin: 17, duration_us: 20_000, clamped: false },
            Action::Deactivate { pin: 6 },
            Action::Ignored { note: 36 },
        ]
    );
    assert!(drum.striker(36).unwrap().active);
    assert!(drum.striker(42).unwrap().active);
    assert!(!drum.modifier(46).unwrap().is_active());
    assert_eq!(drum.handle_midi_command(&vec![]), vec![]);
    assert_eq!(drum.handle_midi_command(&vec![0x90]), vec![]);
}

#[test]
fn note_off_message_is_no_strike() {
    let mut drum = kit(false);
    assert_eq!(drum.handle_midi_command(&vec![0x80, 36, 0]), vec![]);
    assert!(!drum.striker(36).unwrap().active);
    assert_eq!(drum.handle_midi_command(&vec![0x80, 46, 0]), vec![Action::Deactivate { pin: 6 }]);
    assert!(!drum.striker(42).unwrap().active);
}

#[test]
fn routing_commands() {
    let mut drum = kit(false);
    let midi = Command::try_from(&vec![0x85, 0xC1, 0x90, 36, 127]).unwrap();
    assert_eq!(
        drum.route_command(&midi),
        vec![Action::Pulse { note: 36, pin: 17, duration_us: 120_000, clamped: false }]
    );
    let constants = Command::try_from(&vec![1, 2, 0x00]).unwrap();
    assert_eq!(drum.route_command(&constants), vec![Action::SendSystemConstants]);
    let read = Command::try_from(&vec![1, 2, 0x01]).unwrap();
    assert_eq!(drum.route_command(&read), vec![Action::SendConfiguration]);
    let write = Command::try_from(&vec![1, 2, 0x02, b'{', b'}']).unwrap();
    assert_eq!(drum.route_command(&write), vec![Action::LoadConfiguration]);
    assert!(drum.striker(36).unwrap().active);
    assert!(!drum.striker(42).unwrap().active);
}

#[test]
fn log_has_one_entry_per_strike_in_order() {
    let mut drum = kit(true);
    let strikes: [(u8, u8, u64, u64); 5] = [
        (36, 127, 1_000, 120_300_000),
        (42, 0, 1_250, 20_100_000),
        (36, 64, 1_250, 70_500_000),
        (46, 10, 4_000, 28_000_000),
        (36, 1, 3_000, 21_000_000),
    ];
    for (count, (note, velocity, time, actual)) in strikes.iter().enumerate() {
        let actions = drum.handle_note((0x90, *note, *velocity));
        let target = match actions.last().unwrap() {
            Action::Pulse { note, .. } => *note,
            other => panic!("unexpected: {:?}", other),
        };
        assert_eq!(drum.logger().entries().len(), count);
        drum.pulse_finished(
            target,
            Some(PulseTiming { time: *time, actual_duration_ns: *actual }),
        );
        assert_eq!(drum.logger().entries().len(), count + 1);
    }
    let log = drum.logger().entries();
    assert_eq!(log.len(), 5);
    for (entry, (note, velocity, time, actual)) in log.iter().zip(strikes.iter()) {
        assert_eq!(entry.time, *time);
        assert_eq!(entry.actual_duration_ns, *actual);
        assert_eq!(entry.midi_data, (0x90, *note, *velocity));
        assert_eq!(entry.note_num, *note);
        assert_eq!(entry.velocity, *velocity);
        assert_eq!(entry.striker_kind, StrikerHardwareKind::SolenoidBig);
    }
    assert_eq!(log[0].ms_since_last, 0);
    assert_eq!(log[1].ms_since_last, 250);
    assert_eq!(log[2].ms_since_last, 0);
    assert_eq!(log[3].ms_since_last, 2_750);
    // the clock went backwards
    assert_eq!(log[4].ms_since_last, 0);
    assert_eq!(log[0].planned_duration_ns, 120_000_000);
    assert_eq!(log[1].planned_duration_ns, 20_000_000);
    assert_eq!(log[2].planned_duration_ns, 70_393_000);
    assert_eq!(log[0].striker_name, "Kick");
    assert_eq!(log[0].target_pin, 17);
    assert_eq!(log[1].striker_name, "HiHat");
    assert_eq!(log[1].target_pin, 5);
    assert_eq!(log[3].striker_name, "HiHat");
    assert_eq!(log[3].target_pin, 5);
    assert_eq!(drum.logger().last_hit_time(), Some(3_000));
}

#[test]
fn ignored_and_untraced_strikes_are_not_logged() {
    let mut drum = kit(true);
    drum.handle_note((0x90, 36, 127));
    assert_eq!(drum.handle_note((0x90, 36, 1)), vec![Action::Ignored { note: 36 }]);
    drum.pulse_finished(36, Some(PulseTiming { time: 10, actual_duration_ns: 20 }));
    assert_eq!(drum.logger().entries().len(), 1);
    // the entry is that of the strike that started the pulse
    assert_eq!(drum.logger().entries()[0].velocity, 127);
    // nothing is in flight any more
    drum.pulse_finished(36, Some(PulseTiming { time: 11, actual_duration_ns: 20 }));
    assert_eq!(drum.logger().entries().len(), 1);
    // the host measured nothing
    drum.handle_note((0x90, 36, 127));
    drum.pulse_finished(36, None);
    assert_eq!(drum.logger().entries().len(), 1);
    drum.pulse_finished(36, Some(PulseTiming { time: 12, actual_duration_ns: 20 }));
    assert_eq!(drum.logger().entries().len(), 1);
    // a plain hit is not traced
    drum.hit(36, 127);
    drum.pulse_finished(36, Some(PulseTiming { time: 13, actual_duration_ns: 20 }));
    assert_eq!(drum.logger().entries().len(), 1);
    // note-off is never logged
    drum.handle_note((0x80, 46, 0));
    assert_eq!(drum.logger().entries().len(), 1);
}

#[test]
fn without_debug_nothing_is_logged() {
    let mut drum = kit(false);
    drum.handle_midi_command(&vec![0x90, 36, 127]);
    drum.pulse_finished(36, Some(PulseTiming { time: 10, actual_duration_ns: 20 }));
    assert!(!drum.logger().has_data());
    // tracing can still be asked for strike by strike
    drum.hit_with_debug(36, 127, (0x90, 36, 127));
    drum.pulse_finished(36, Some(PulseTiming { time: 10, actual_duration_ns: 20 }));
    assert_eq!(drum.logger().entries().len(), 1);
}

#[test]
fn stop_releases_every_line() {
    let mut drum = kit(true);
    drum.handle_note((0x90, 36, 127));
    drum.handle_note((0x90, 46, 127));
    let actions = drum.stop();
    assert_eq!(
        actions,
        vec![
            Action::Deactivate { pin: 17 },
            Action::Deactivate { pin: 5 },
            Action::Deactivate { pin: 7 },
            Action::Deactivate { pin: 6 },
        ]
    );
    for note in [36u8, 42] {
        assert!(!drum.striker(note).unwrap().active);
    }
    for note in [44u8, 46] {
        assert!(!drum.modifier(note).unwrap().is_active());
    }
    // a pulse that was cut short is not logged
    drum.pulse_finished(36, Some(PulseTiming { time: 10, actual_duration_ns: 20 }));
    assert!(!drum.logger().has_data());
    // the registry is as before and can be used again
    assert_eq!(summary(&drum).len(), 2);
    assert_eq!(drum.modifier_target(46), Some(42));
    assert_eq!(drum.hit(36, 0).len(), 1);
    assert_eq!(drum.stop().len(), 4);
    assert_eq!(AutoDrum::new(calibration(), false).stop(), vec![]);
}

#[test]
fn export_lists_the_strikers_by_note() {
    let mut drum = AutoDrum::new(calibration(), false);
    drum.add_striker(42, 5, "HiHat", StrikerHardwareKind::SolenoidSmall).unwrap();
    drum.add_striker(36, 17, "Kick", StrikerHardwareKind::SolenoidBig).unwrap();
    drum.add_modifier("HiHat", 40, 6, "Open", ModifierHardwareKind::SolenoidBig).unwrap();
    drum.add_striker(255, 1, "Top", StrikerHardwareKind::SolenoidBig).unwrap();
    drum.add_striker(0, 2, "Bottom", StrikerHardwareKind::SolenoidBig).unwrap();
    assert_eq!(
        summary(&drum),
        vec![
            ("Bottom".to_string(), 0, 2, Some(20_000), Some(100_000)),
            ("Kick".to_string(), 36, 17, Some(20_000), Some(100_000)),
            ("HiHat".to_string(), 42, 5, Some(4_000), Some(500_000)),
            ("Top".to_string(), 255, 1, Some(20_000), Some(100_000)),
        ]
    );
    let config = drum.export_configuration();
    assert_eq!(config.strikers[2].kind, StrikerHardwareKind::SolenoidSmall);
}

fn record(name: &str, note: u8, pin: u8) -> StrikerData {
    StrikerData {
        name: name.to_string(),
        pin,
        kind: StrikerHardwareKind::SolenoidBig,
        note,
        min_hit_duration: Some(1),
        max_hit_duration: Some(2),
    }
}

#[test]
fn loading_a_configuration() {
    let mut drum = AutoDrum::new(calibration(), false);
    let config = Configuration {
        strikers: vec![record("Kick", 36, 17), record("Snare", 38, 27), record("Tom", 45, 22)],
    };
    assert_eq!(drum.load_configuration(&config), Ok(()));
    // each striker is registered with the default timing of its kind
    assert_eq!(
        summary(&drum),
        vec![
            ("Kick".to_string(), 36, 17, Some(20_000), Some(100_000)),
            ("Snare".to_string(), 38, 27, Some(20_000), Some(100_000)),
            ("Tom".to_string(), 45, 22, Some(20_000), Some(100_000)),
        ]
    );
    assert_eq!(drum.load_configuration(&Configuration { strikers: vec![] }), Ok(()));
    assert_eq!(summary(&drum).len(), 3);
}

#[test]
fn loading_stops_at_the_first_rejected_record() {
    let mut drum = AutoDrum::new(calibration(), false);
    drum.add_striker(38, 27, "Snare", StrikerHardwareKind::SolenoidSmall).unwrap();
    let config = Configuration {
        strikers: vec![
            record("Kick", 36, 17),
            record("Other", 38, 1),
            record("Tom", 45, 22),
        ],
    };
    assert_eq!(drum.load_configuration(&config), Err(RegistrationError::Duplicate));
    assert_eq!(
        summary(&drum),
        vec![
            ("Kick".to_string(), 36, 17, Some(20_000), Some(100_000)),
            ("Snare".to_string(), 38, 27, Some(4_000), Some(500_000)),
        ]
    );
    assert!(drum.striker(45).is_none());
    // a document that names a striker twice
    let mut fresh = AutoDrum::new(calibration(), false);
    let twice = Configuration { strikers: vec![record("Kick", 36, 17), record("Kick", 37, 18)] };
    assert_eq!(fresh.load_configuration(&twice), Err(RegistrationError::Duplicate));
    assert_eq!(summary(&fresh).len(), 1);
}

#[test]
fn response_is_stamped() {
    let mut drum = kit(false);
    drum.hit(36, 1);
    drum.send("{\"a\":1}");
    let response = drum.response().clone();
    assert_eq!(response.len(), 9);
    assert!(1 <= response[0] && response[0] < 255);
    assert!(1 <= response[1] && response[1] < 255);
    assert_eq!(&response[2..], "{\"a\":1}".as_bytes());
    assert!(drum.striker(36).unwrap().active);
    assert_eq!(summary(&drum).len(), 2);
}
