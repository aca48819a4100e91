use wooting_analog_midi::command::CommandError;
use wooting_analog_midi::event::MidiEvent;
use wooting_analog_midi::poll::{ConnectivityChange, PollDriver, ReadOutcome};
use wooting_analog_midi::service::{MidiService, MidiServiceError, PortAction};
use wooting_analog_midi::settings::{default_shift_amount, AppSettings, SaveThrottle};

fn connected_service() -> MidiService {
    let mut service = MidiService::new();
    service.device_started();
    service.apply_port_scan(vec![String::from("synth")], 0, true);
    service
}

#[test]
fn select_port_out_of_range_changes_nothing() {
    let mut service = MidiService::new();
    service.apply_port_scan(vec![String::from("a"), String::from("b")], 0, true);

    let r = service.select_port(5);
    assert_eq!(r, Err(MidiServiceError::IndexOutOfRange));

    // the option list and the active connection are unchanged
    let options = service.port_options.as_ref().unwrap();
    assert_eq!(options.len(), 2);
    assert_eq!(options[0].0, 0);
    assert_eq!(options[0].1, "a");
    assert!(options[0].2);
    assert!(!options[1].2);
    assert!(service.has_connection);
}

#[test]
fn select_port_before_scan_is_refused() {
    let mut service = MidiService::new();
    assert_eq!(service.select_port(0), Err(MidiServiceError::PortOptionsNotInitialised));
}

#[test]
fn select_port_active_and_reconnect() {
    let mut service = MidiService::new();
    service.apply_port_scan(vec![String::from("a"), String::from("b")], 0, true);
    assert_eq!(service.select_port(0), Ok(PortAction::AlreadyActive));
    assert_eq!(service.select_port(1), Ok(PortAction::Reconnect));
    // completing the selection moves the active flag
    service.apply_port_scan(vec![String::from("a"), String::from("b")], 1, true);
    let options = service.port_options.as_ref().unwrap();
    assert!(!options[0].2);
    assert!(options[1].2);
}

#[test]
fn poll_without_connection_is_refused() {
    let mut service = MidiService::new();
    let r = service.poll(&vec![(4, 9000)], 10);
    assert_eq!(r, Err(MidiServiceError::NoConnection));
}

#[test]
fn poll_emits_note_on_for_mapped_key() {
    let mut service = connected_service();
    let released = service.update_mapping(&vec![(4, vec![(0, 60)])]);
    assert!(released.is_empty());

    let evs = service.poll(&vec![(4, 9000)], 10).unwrap();
    assert_eq!(evs.len(), 1);
    assert!(matches!(evs[0], MidiEvent::NoteOn { note: 60, channel: 0, .. }));

    // releasing the key emits the note-off
    let evs = service.poll(&vec![], 20).unwrap();
    assert_eq!(evs.len(), 1);
    assert!(matches!(evs[0], MidiEvent::NoteOff { note: 60, channel: 0, .. }));
}

#[test]
fn modifier_applies_shift_during_poll() {
    let mut service = connected_service();
    service.amount_to_shift = 12;
    service.update_mapping(&vec![(4, vec![(0, 60)])]);

    // the modifier key (code 225) is past its actuation point, so the
    // press sounds an octave up
    let evs = service.poll(&vec![(4, 9000), (225, 2500)], 10).unwrap();
    assert_eq!(evs.len(), 1);
    assert!(matches!(evs[0], MidiEvent::NoteOn { note: 72, .. }));
}

#[test]
fn modifier_below_actuation_point_means_no_shift() {
    let mut service = connected_service();
    service.amount_to_shift = 12;
    service.update_mapping(&vec![(4, vec![(0, 60)])]);

    let evs = service.poll(&vec![(4, 9000), (225, 1500)], 10).unwrap();
    assert_eq!(evs.len(), 1);
    assert!(matches!(evs[0], MidiEvent::NoteOn { note: 60, .. }));
}

#[test]
fn remapping_service_releases_pressed_notes() {
    let mut service = connected_service();
    service.update_mapping(&vec![(4, vec![(0, 60)])]);
    service.poll(&vec![(4, 9000)], 10).unwrap();

    let released = service.update_mapping(&vec![(5, vec![(0, 61)])]);
    assert_eq!(released.len(), 1);
    assert!(matches!(released[0], MidiEvent::NoteOff { note: 60, channel: 0, .. }));
}

#[test]
fn shutdown_releases_and_tears_down_exactly_once() {
    let mut service = connected_service();
    service.update_mapping(&vec![(4, vec![(0, 60)])]);
    service.poll(&vec![(4, 9000)], 10).unwrap();

    // first shutdown: one close, one device uninit, the owed note-off
    let (events, actions) = service.uninit();
    assert!(actions.close_output);
    assert!(actions.uninit_device);
    assert_eq!(events.len(), 1);
    assert!(matches!(events[0], MidiEvent::NoteOff { note: 60, .. }));

    // second shutdown: nothing is owed and nothing is released again
    let (events, actions) = service.uninit();
    assert!(!actions.close_output);
    assert!(!actions.uninit_device);
    assert!(events.is_empty());
}

#[test]
fn shutdown_after_read_errors_still_tears_down() {
    // the teardown decision does not depend on how the last tick went
    let mut driver = PollDriver::new(1);
    assert_eq!(driver.on_read_outcome(ReadOutcome::Failure), None);
    let mut service = connected_service();
    let (_, actions) = service.uninit();
    assert!(actions.close_output);
    assert!(actions.uninit_device);
}

#[test]
fn connectivity_events_fire_once_per_transition() {
    let mut driver = PollDriver::new(0);
    assert!(!driver.has_devices);
    assert_eq!(driver.on_read_outcome(ReadOutcome::Success), Some(ConnectivityChange::Found));
    assert_eq!(driver.on_read_outcome(ReadOutcome::Success), None);
    assert_eq!(driver.on_read_outcome(ReadOutcome::NoDevices), Some(ConnectivityChange::Lost));
    assert_eq!(driver.on_read_outcome(ReadOutcome::NoDevices), None);
    assert_eq!(driver.on_read_outcome(ReadOutcome::Failure), None);
    assert!(!driver.has_devices);
    assert_eq!(driver.on_read_outcome(ReadOutcome::Success), Some(ConnectivityChange::Found));
}

#[test]
fn status_updates_are_throttled() {
    let mut driver = PollDriver::new(1);
    let due: Vec<bool> = (0..7).map(|_| driver.status_due()).collect();
    assert_eq!(due, vec![true, false, false, true, false, false, true]);
}

#[test]
fn midi_update_reports_active_keys_only() {
    let mut service = connected_service();
    service.update_mapping(&vec![(4, vec![(0, 60)]), (7, vec![(1, 62)])]);
    service.poll(&vec![(4, 9000)], 10).unwrap();

    let update = service.midi_update();
    // keys 4 and 7 have bindings; every other key is silent and unbound
    assert_eq!(update.data.len(), 2);
    assert_eq!(update.data[0].0, 4);
    assert_eq!(update.data[0].1.value, 9000);
    assert_eq!(update.data[0].1.notes.len(), 1);
    let entry = update.data[0].1.notes[0];
    assert_eq!(entry.note, 60);
    assert_eq!(entry.channel, 0);
    assert!(entry.pressed);
    assert_eq!(update.data[1].0, 7);
    assert_eq!(update.data[1].1.value, 0);
    assert!(!update.data[1].1.notes[0].pressed);
}

#[test]
fn save_throttle_allows_one_save_per_window() {
    let mut throttle = SaveThrottle::new();
    assert!(throttle.record_update(1000));
    assert!(!throttle.record_update(2000));
    assert!(!throttle.record_update(3000));
    // the window has passed
    assert!(throttle.record_update(6000));
}

#[test]
fn save_throttle_boundary() {
    let mut throttle = SaveThrottle::new();
    assert!(throttle.record_update(0));
    assert!(!throttle.record_update(4999));
    let mut throttle = SaveThrottle::new();
    throttle.record_update(0);
    assert!(throttle.record_update(5000));
}

#[test]
fn proper_mapping_inverts_keymapping() {
    let mut settings = AppSettings::default();
    settings.keymapping = vec![(0, vec![(10, 60)]), (1, vec![(10, 62), (11, 63)])];
    let mapping = settings.get_proper_mapping();
    assert_eq!(mapping.len(), 2);
    let key10 = mapping.iter().find(|e| e.0 == 10).unwrap();
    assert_eq!(key10.1, vec![(0, 60), (1, 62)]);
    let key11 = mapping.iter().find(|e| e.0 == 11).unwrap();
    assert_eq!(key11.1, vec![(1, 63)]);
}

#[test]
fn default_settings() {
    let settings = AppSettings::default();
    assert_eq!(settings.shift_amount, 12);
    assert_eq!(default_shift_amount(), 12);
    assert_eq!(settings.keymapping.len(), 1);
    assert_eq!(settings.keymapping[0].0, 0);
    assert_eq!(settings.keymapping[0].1.len(), 10);
    assert_eq!(settings.keymapping[0].1[0], (4, 57));
    assert_eq!(settings.keymapping[0].1[9], (24, 66));
    assert_eq!(settings.note_config.threshold(), 5000);
}

#[test]
fn command_error_carries_message() {
    let e = CommandError::new(String::from("port option out of range"));
    assert_eq!(e.message, "port option out of range");
}

#[test]
fn port_scan_with_no_ports_leaves_no_connection() {
    let mut service = MidiService::new();
    service.apply_port_scan(Vec::new(), 0, false);
    assert_eq!(service.port_options.as_ref().unwrap().len(), 0);
    assert!(!service.has_connection);
    assert_eq!(service.select_port(0), Err(MidiServiceError::IndexOutOfRange));
}

#[test]
fn snapshot_first_entry_wins() {
    // a key code mentioned twice in a snapshot takes its first value
    let mut service = connected_service();
    service.update_mapping(&vec![(4, vec![(0, 60)])]);
    let evs = service.poll(&vec![(4, 9000), (4, 0)], 10).unwrap();
    assert_eq!(evs.len(), 1);
    assert!(matches!(evs[0], MidiEvent::NoteOn { note: 60, .. }));
}

#[test]
fn releases_come_in_key_code_order() {
    let mut service = connected_service();
    service.update_mapping(&vec![(9, vec![(0, 61)]), (4, vec![(0, 60)])]);
    service.poll(&vec![(4, 9000), (9, 9000)], 10).unwrap();
    let released = service.update_mapping(&vec![]);
    assert_eq!(released.len(), 2);
    assert!(matches!(released[0], MidiEvent::NoteOff { note: 60, .. }));
    assert!(matches!(released[1], MidiEvent::NoteOff { note: 61, .. }));
}
