use wooting_analog_midi::config::NoteConfig;
use wooting_analog_midi::event::MidiEvent;
use wooting_analog_midi::key::Key;
use wooting_analog_midi::note::Note;

fn default_config() -> NoteConfig {
    NoteConfig::new(5000, 500)
}

#[test]
fn press_and_release_scenario() {
    // threshold 0.5, velocity_scale 5.0, one binding (channel 0, note 60),
    // magnitudes [0.0, 0.6, 0.6, 0.3] at equally spaced ticks.
    let cfg = default_config();
    let mut key = Key::new();
    key.notes.push(Note::new(0, 60));

    let evs = key.update_value(0, 0, 0, &cfg);
    assert!(evs.is_empty());

    let evs = key.update_value(6000, 10, 0, &cfg);
    assert_eq!(evs.len(), 1);
    match evs[0] {
        MidiEvent::NoteOn { note, velocity, channel } => {
            assert_eq!(note, 60);
            assert!(velocity > 0);
            assert_eq!(channel, 0);
        }
        _ => panic!("expected a note-on"),
    }

    // unchanged magnitude above the threshold: no aftertouch
    let evs = key.update_value(6000, 20, 0, &cfg);
    assert!(evs.is_empty());

    // drop to 0.3: note-off on the same note and channel
    let evs = key.update_value(3000, 30, 0, &cfg);
    assert_eq!(evs.len(), 1);
    match evs[0] {
        MidiEvent::NoteOff { note, channel, .. } => {
            assert_eq!(note, 60);
            assert_eq!(channel, 0);
        }
        _ => panic!("expected a note-off"),
    }
}

#[test]
fn polyphonic_fan_out_two_channels() {
    // one key bound to the same note on channels 0 and 1: independent
    // note-on/off pairs per channel.
    let cfg = default_config();
    let mut key = Key::new();
    key.notes.push(Note::new(0, 64));
    key.notes.push(Note::new(1, 64));

    let evs = key.update_value(8000, 10, 0, &cfg);
    assert_eq!(evs.len(), 2);
    assert!(matches!(evs[0], MidiEvent::NoteOn { note: 64, channel: 0, .. }));
    assert!(matches!(evs[1], MidiEvent::NoteOn { note: 64, channel: 1, .. }));

    let evs = key.update_value(0, 20, 0, &cfg);
    assert_eq!(evs.len(), 2);
    assert!(matches!(evs[0], MidiEvent::NoteOff { note: 64, channel: 0, .. }));
    assert!(matches!(evs[1], MidiEvent::NoteOff { note: 64, channel: 1, .. }));
}

#[test]
fn remap_releases_pressed_note() {
    let cfg = default_config();
    let mut key = Key::new();
    key.notes.push(Note::new(0, 60));
    key.update_value(9000, 10, 0, &cfg);
    assert!(key.notes[0].pressed);

    // remapping the key emits exactly one note-off for the old binding
    // before the new binding exists, and the new binding starts unpressed
    let evs = key.update_mappings(&vec![(0, 70)], true);
    assert_eq!(evs.len(), 1);
    assert!(matches!(evs[0], MidiEvent::NoteOff { note: 60, channel: 0, .. }));
    assert_eq!(key.notes.len(), 1);
    assert_eq!(key.notes[0].note_id, 70);
    assert!(!key.notes[0].pressed);
}

#[test]
fn remap_without_sink_emits_nothing() {
    let cfg = default_config();
    let mut key = Key::new();
    key.notes.push(Note::new(0, 60));
    key.update_value(9000, 10, 0, &cfg);

    let evs = key.update_mappings(&vec![(0, 70)], false);
    assert!(evs.is_empty());
    assert_eq!(key.notes[0].note_id, 70);
}

#[test]
fn aftertouch_on_changed_magnitude() {
    let cfg = default_config();
    let mut key = Key::new();
    key.notes.push(Note::new(3, 72));
    key.update_value(6000, 10, 0, &cfg);
    let evs = key.update_value(7000, 20, 0, &cfg);
    assert_eq!(evs.len(), 1);
    assert!(matches!(evs[0], MidiEvent::PolyAftertouch { note: 72, pressure: 7000, channel: 3 }));
}

#[test]
fn alternation_over_repeated_presses() {
    let cfg = default_config();
    let mut key = Key::new();
    key.notes.push(Note::new(0, 60));
    let magnitudes = [0u16, 8000, 9000, 2000, 0, 7000, 7000, 1000];
    let mut events: Vec<MidiEvent> = Vec::new();
    for (i, m) in magnitudes.iter().enumerate() {
        events.extend(key.update_value(*m, (i as u64) * 10, 0, &cfg));
    }
    // note-on, aftertouches, note-off, repeated; never two consecutive ons
    let mut pressed = false;
    for e in &events {
        match e {
            MidiEvent::NoteOn { .. } => {
                assert!(!pressed);
                pressed = true;
            }
            MidiEvent::NoteOff { .. } => {
                assert!(pressed);
                pressed = false;
            }
            MidiEvent::PolyAftertouch { .. } => assert!(pressed),
        }
    }
    assert_eq!(
        events
            .iter()
            .filter(|e| matches!(e, MidiEvent::NoteOn { .. }))
            .count(),
        2
    );
    assert!(!pressed);
}

#[test]
fn exact_velocity_estimate() {
    // anchor at magnitude 0 and time 0; rising to 0.6 after one second with
    // velocity_scale 5.00 estimates (0.6 / 1s) * 0.05 = 0.03
    let cfg = default_config();
    let mut note = Note::new(0, 60);
    note.lower_press_time = Some((0, 0));
    let ev = note.update_current_value(1000, 6000, 1000, 0, &cfg);
    assert_eq!(note.velocity, 300);
    match ev {
        Some(MidiEvent::NoteOn { velocity, .. }) => assert_eq!(velocity, 300),
        _ => panic!("expected a note-on"),
    }
}

#[test]
fn velocity_clamped_to_full_press() {
    // a fast rise saturates the estimate at 1.0
    let cfg = default_config();
    let mut note = Note::new(0, 60);
    note.lower_press_time = Some((0, 0));
    let ev = note.update_current_value(1000, 6000, 1, 0, &cfg);
    assert_eq!(note.velocity, 10000);
    assert!(matches!(ev, Some(MidiEvent::NoteOn { velocity: 10000, .. })));
}

#[test]
fn no_movement_means_no_velocity() {
    let cfg = default_config();
    let mut note = Note::new(0, 60);
    note.lower_press_time = Some((0, 4000));
    note.velocity = 1234;
    note.update_current_value(4000, 4000, 50, 0, &cfg);
    assert_eq!(note.velocity, 0);
}

#[test]
fn anchor_reset_on_return_to_zero() {
    let cfg = default_config();
    let mut note = Note::new(0, 60);
    note.lower_press_time = Some((0, 3000));
    note.update_current_value(3000, 0, 70, 0, &cfg);
    assert_eq!(note.lower_press_time, Some((70, 0)));
    assert_eq!(note.velocity, 0);
}

#[test]
fn anchor_retaken_on_stall() {
    // the new magnitude is within the margin of the anchor magnitude, so
    // the anchor is re-established at the current tick
    let cfg = default_config();
    let mut note = Note::new(0, 60);
    note.lower_press_time = Some((0, 5000));
    note.update_current_value(5000, 5050, 80, 0, &cfg);
    assert_eq!(note.lower_press_time, Some((80, 5050)));
}

#[test]
fn anchor_retaken_on_regression() {
    let cfg = default_config();
    let mut note = Note::new(0, 60);
    note.lower_press_time = Some((0, 1000));
    note.update_current_value(4000, 2000, 90, 0, &cfg);
    assert_eq!(note.lower_press_time, Some((90, 2000)));
}

#[test]
fn effective_note_range() {
    let mut note = Note::new(0, 21);
    assert_eq!(note.get_effective_note(), Some(21));
    note.shifted_amount = -1;
    assert_eq!(note.get_effective_note(), None);

    let mut note = Note::new(0, 108);
    assert_eq!(note.get_effective_note(), Some(108));
    note.shifted_amount = 1;
    assert_eq!(note.get_effective_note(), None);
    note.shifted_amount = -12;
    assert_eq!(note.get_effective_note(), Some(96));
}

#[test]
fn out_of_range_shift_suppresses_emission() {
    // a shift that pushes the effective note past the playable range makes
    // the binding inert: no events, no pressed transition, no error
    let cfg = default_config();
    let mut key = Key::new();
    key.notes.push(Note::new(0, 100));
    let evs = key.update_value(9000, 10, 12, &cfg);
    assert!(evs.is_empty());
    assert!(!key.notes[0].pressed);
    // shift back in range: the press resumes normally
    let evs = key.update_value(9500, 20, 0, &cfg);
    assert_eq!(evs.len(), 1);
    assert!(matches!(evs[0], MidiEvent::NoteOn { note: 100, .. }));
}

#[test]
fn shift_not_taken_while_pressed() {
    // an in-flight press keeps the pitch it was turned on with
    let cfg = default_config();
    let mut key = Key::new();
    key.notes.push(Note::new(0, 60));
    key.update_value(8000, 10, 0, &cfg);
    assert!(key.notes[0].pressed);
    // shift arrives while pressed: the note-off stays on the old pitch
    let evs = key.update_value(1000, 20, 12, &cfg);
    assert_eq!(evs.len(), 1);
    assert!(matches!(evs[0], MidiEvent::NoteOff { note: 60, .. }));
    // now unpressed: the next press takes the shift
    let evs = key.update_value(8000, 30, 12, &cfg);
    assert_eq!(evs.len(), 1);
    assert!(matches!(evs[0], MidiEvent::NoteOn { note: 72, .. }));
}

#[test]
fn event_bytes() {
    assert_eq!(
        MidiEvent::NoteOn { note: 60, velocity: 10000, channel: 2 }.to_bytes(),
        (0x92, 60, 127)
    );
    assert_eq!(
        MidiEvent::NoteOff { note: 21, velocity: 0, channel: 0 }.to_bytes(),
        (0x80, 21, 0)
    );
    assert_eq!(
        MidiEvent::PolyAftertouch { note: 60, pressure: 5000, channel: 0 }.to_bytes(),
        (0xA0, 60, 63)
    );
    // an out-of-range magnitude is clamped to the full 7-bit value
    assert_eq!(
        MidiEvent::NoteOn { note: 60, velocity: 20000, channel: 15 }.to_bytes(),
        (0x9F, 60, 127)
    );
}

#[test]
fn note_config_accessors() {
    let cfg = NoteConfig::new(4000, 700);
    assert_eq!(cfg.threshold(), 4000);
    assert_eq!(cfg.velocity_scale(), 700);
    let d = NoteConfig::default();
    assert_eq!(d.threshold(), 5000);
    assert_eq!(d.velocity_scale(), 500);
}
