use vstd::prelude::*;

verus! {

use crate::config::NoteConfig;
use crate::event::MidiEvent;
use crate::key::{fresh_notes, notes_release, notes_step, Key};
use crate::note::Note;
use crate::{Channel, NoteID, ACTUATION_POINT, KEY_TABLE_SIZE, MAG_ONE, MODIFIER_KEY_CODE};

/// One enumerable MIDI output destination: its index in the scan, its
/// display name, and whether it is the active (connected) one.
#[derive(Debug, Clone)]
pub struct PortOption(pub usize, pub String, pub bool);

/// Typed errors of the engine facade.
#[derive(Debug, Clone, Copy, PartialEq, Eq, Structural)]
pub enum MidiServiceError {
    /// No port scan has happened yet, so no option can be selected.
    PortOptionsNotInitialised,
    /// The selected index is not within the current option list.
    IndexOutOfRange,
    /// Opening a connection to the selected port failed.
    ConnectFailed,
    /// A tick was asked for while no output connection exists.
    NoConnection,
}

/// What a validated port selection asks the host to do.
#[derive(Debug, Clone, Copy, PartialEq, Eq, Structural)]
pub enum PortAction {
    /// The index is already the active port; nothing to do.
    AlreadyActive,
    /// The index is valid and inactive: re-scan ports and connect to it.
    Reconnect,
}

/// What a shutdown asks the host to release.
#[derive(Debug, Clone, Copy, PartialEq, Eq, Structural)]
pub struct TeardownActions {
    /// Close the open output connection.
    pub close_output: bool,
    /// Uninitialise the device layer.
    pub uninit_device: bool,
}

/// The engine facade: the mapping table (one `Key` per possible key code),
/// the note configuration, the global shift amount, the last port scan and
/// the presence of an output connection and of an initialised device layer.
/// The real connection and device handles live with the host; this state
/// machine decides every transition and event.
pub struct MidiService {
    pub port_options: Option<Vec<PortOption>>,
    pub has_connection: bool,
    pub device_active: bool,
    pub keys: Vec<Key>,
    pub amount_to_shift: i8,
    pub note_config: NoteConfig,
}

/// The mapping table is total: one slot for every key code byte.
pub open spec fn midi_service_wf(s: MidiService) -> bool {
    s.keys@.len() == KEY_TABLE_SIZE
}

/// The bindings a mapping assigns to one key code: those of its first
/// entry for that code, or none.
pub open spec fn bindings_for(
    mapping: Seq<(u8, Vec<(Channel, NoteID)>)>,
    code: u8,
) -> Seq<(Channel, NoteID)>
    decreases mapping.len(),
{
    if mapping.len() == 0 {
        Seq::empty()
    } else if mapping[0].0 == code {
        mapping[0].1@
    } else {
        bindings_for(mapping.drop_first(), code)
    }
}

/// The forced-release events of a whole mapping table, in key-code order.
pub open spec fn keys_release_events(keys: Seq<Key>, has_sink: bool) -> Seq<MidiEvent>
    decreases keys.len(),
{
    if keys.len() == 0 {
        Seq::empty()
    } else {
        keys_release_events(keys.drop_last(), has_sink)
            + notes_release(keys.last().notes@, has_sink).1
    }
}

/// The magnitude a snapshot reports for a key code: the value of its first
/// entry for that code, or 0 when the snapshot does not mention it.
pub open spec fn snapshot_value(snapshot: Seq<(u16, u16)>, code: u16) -> u16
    decreases snapshot.len(),
{
    if snapshot.len() == 0 {
        0
    } else if snapshot[0].0 == code {
        snapshot[0].1
    } else {
        snapshot_value(snapshot.drop_first(), code)
    }
}

/// Every magnitude in the snapshot is a magnitude.
pub open spec fn snapshot_wf(snapshot: Seq<(u16, u16)>) -> bool {
    forall|i: int| 0 <= i < snapshot.len() ==> (#[trigger] snapshot[i]).1 <= MAG_ONE
}

/// The shift in force during a tick: the configured shift amount while the
/// modifier key is held past its actuation point, else 0.
pub open spec fn poll_shift(s: MidiService, snapshot: Seq<(u16, u16)>) -> i8 {
    if snapshot_value(snapshot, MODIFIER_KEY_CODE) >= ACTUATION_POINT {
        s.amount_to_shift
    } else {
        0
    }
}

/// The events of one tick over a prefix of the mapping table, in key-code
/// order: each key steps with the magnitude its code has in the snapshot.
pub open spec fn keys_poll_events(
    keys: Seq<Key>,
    snapshot: Seq<(u16, u16)>,
    now_ms: u64,
    shift: i8,
    cfg: NoteConfig,
) -> Seq<MidiEvent>
    decreases keys.len(),
{
    if keys.len() == 0 {
        Seq::empty()
    } else {
        keys_poll_events(keys.drop_last(), snapshot, now_ms, shift, cfg) + notes_step(
            keys.last().notes@,
            keys.last().current_value,
            snapshot_value(snapshot, (keys.len() - 1) as u16),
            now_ms,
            shift,
            cfg,
        ).1
    }
}

/// A value a snapshot yields is a magnitude when the snapshot is well
/// formed.
pub proof fn lemma_snapshot_value_bounded(snapshot: Seq<(u16, u16)>, code: u16)
    requires
        snapshot_wf(snapshot),
    ensures
        snapshot_value(snapshot, code) <= MAG_ONE,
    decreases snapshot.len(),
{
    if snapshot.len() > 0 && snapshot[0].0 != code {
        assert(snapshot_wf(snapshot.drop_first())) by {
            assert(forall|i: int| 0 <= i < snapshot.drop_first().len()
                ==> #[trigger] snapshot.drop_first()[i] == snapshot[i + 1]);
        }
        lemma_snapshot_value_bounded(snapshot.drop_first(), code);
    }
}

/// The total mapping table at creation: one key with no bindings for every
/// possible key code.
fn generate_note_mapping() -> (r: Vec<Key>)
    ensures
        r@.len() == KEY_TABLE_SIZE,
        forall|i: int| 0 <= i < KEY_TABLE_SIZE
            ==> (#[trigger] r@[i]).notes@.len() == 0 && r@[i].current_value == 0,
{
    let mut keys: Vec<Key> = Vec::new();
    let mut i: usize = 0;
    while i < KEY_TABLE_SIZE
        invariant
            i <= KEY_TABLE_SIZE,
            keys@.len() == i,
            forall|j: int| 0 <= j < i
                ==> (#[trigger] keys@[j]).notes@.len() == 0 && keys@[j].current_value == 0,
        decreases KEY_TABLE_SIZE - i,
    {
        keys.push(Key::new());
        i = i + 1;
    }
    keys
}

/// Appends a copy of every event in `src` to `dst`.
fn push_events(dst: &mut Vec<MidiEvent>, src: &Vec<MidiEvent>)
    ensures
        final(dst)@ == old(dst)@ + src@,
{
    let mut i: usize = 0;
    while i < src.len()
        invariant
            i <= src@.len(),
            dst@ == old(dst)@ + src@.take(i as int),
        decreases src@.len() - i,
    {
        dst.push(src[i]);
        proof {
            assert(old(dst)@ + src@.take(i + 1) =~= (old(dst)@ + src@.take(i as int)).push(src@[i as int]));
        }
        i = i + 1;
    }
    proof {
        assert(src@.take(src@.len() as int) =~= src@);
    }
}

/// The bindings `mapping` assigns to `code`, per `bindings_for`.
fn lookup_bindings(
    mapping: &Vec<(u8, Vec<(Channel, NoteID)>)>,
    code: u8,
) -> (r: Vec<(Channel, NoteID)>)
    ensures
        r@ == bindings_for(mapping@, code),
{
    let mut i: usize = 0;
    proof {
        assert(mapping@.skip(0) =~= mapping@);
    }
    while i < mapping.len()
        invariant
            i <= mapping@.len(),
            bindings_for(mapping@, code) == bindings_for(mapping@.skip(i as int), code),
        decreases mapping@.len() - i,
    {
        proof {
            assert(mapping@.skip(i as int).len() == mapping@.len() - i);
            assert(mapping@.skip(i as int)[0] == mapping@[i as int]);
            assert(mapping@.skip(i as int).drop_first() =~= mapping@.skip(i + 1));
        }
        if mapping[i].0 == code {
            let found = &mapping[i].1;
            let mut r: Vec<(Channel, NoteID)> = Vec::new();
            let mut j: usize = 0;
            while j < found.len()
                invariant
                    j <= found@.len(),
                    r@ == found@.take(j as int),
                decreases found@.len() - j,
            {
                r.push(found[j]);
                proof {
                    assert(found@.take(j + 1) =~= found@.take(j as int).push(found@[j as int]));
                }
                j = j + 1;
            }
            proof {
                assert(found@.take(found@.len() as int) =~= found@);
            }
            return r;
        }
        i = i + 1;
    }
    proof {
        assert(mapping@.skip(mapping@.len() as int).len() == 0);
    }
    Vec::new()
}

/// The magnitude `snapshot` reports for `code`, per `snapshot_value`.
fn lookup_snapshot(snapshot: &Vec<(u16, u16)>, code: u16) -> (r: u16)
    ensures
        r == snapshot_value(snapshot@, code),
{
    let mut i: usize = 0;
    proof {
        assert(snapshot@.skip(0) =~= snapshot@);
    }
    while i < snapshot.len()
        invariant
            i <= snapshot@.len(),
            snapshot_value(snapshot@, code) == snapshot_value(snapshot@.skip(i as int), code),
        decreases snapshot@.len() - i,
    {
        proof {
            assert(snapshot@.skip(i as int).len() == snapshot@.len() - i);
            assert(snapshot@.skip(i as int)[0] == snapshot@[i as int]);
            assert(snapshot@.skip(i as int).drop_first() =~= snapshot@.skip(i + 1));
        }
        if snapshot[i].0 == code {
            return snapshot[i].1;
        }
        i = i + 1;
    }
    proof {
        assert(snapshot@.skip(snapshot@.len() as int).len() == 0);
    }
    0
}

impl MidiService {
    /// A fresh engine: a total, empty mapping table, default configuration,
    /// no shift, no port scan, no connection, no device layer.
    pub fn new() -> (r: MidiService)
        ensures
            r.port_options is None,
            !r.has_connection,
            !r.device_active,
            r.keys@.len() == KEY_TABLE_SIZE,
            forall|i: int| 0 <= i < KEY_TABLE_SIZE
                ==> (#[trigger] r.keys@[i]).notes@.len() == 0 && r.keys@[i].current_value == 0,
            r.amount_to_shift == 0,
            r.note_config == (NoteConfig {
                threshold: crate::config::DEFAULT_THRESHOLD,
                velocity_scale: crate::config::DEFAULT_VELOCITY_SCALE,
            }),
            midi_service_wf(r),
    {
        MidiService {
            port_options: None,
            has_connection: false,
            device_active: false,
            keys: generate_note_mapping(),
            amount_to_shift: 0,
            note_config: Default::default(),
        }
    }

    /// Atomically replaces the note configuration.
    pub fn set_note_config(&mut self, note_config: NoteConfig)
        ensures
            *final(self) == (MidiService { note_config, ..*old(self) }),
    {
        self.note_config = note_config;
    }

    /// Rebuilds the whole mapping table from a (key code -> bindings) map:
    /// every key first force-releases its existing bindings — emitting a
    /// note-off for each pressed one while a connection exists — and then
    /// takes the fresh bindings its code is assigned (none if unlisted).
    /// Returns the released events in key-code order.
    pub fn update_mapping(
        &mut self,
        mapping: &Vec<(u8, Vec<(Channel, NoteID)>)>,
    ) -> (r: Vec<MidiEvent>)
        requires
            midi_service_wf(*old(self)),
        ensures
            midi_service_wf(*final(self)),
            forall|i: int| 0 <= i < KEY_TABLE_SIZE ==> {
                &&& (#[trigger] final(self).keys@[i]).notes@ == fresh_notes(bindings_for(mapping@, i as u8))
                &&& final(self).keys@[i].current_value == old(self).keys@[i].current_value
            },
            r@ == keys_release_events(old(self).keys@, old(self).has_connection),
            final(self).port_options == old(self).port_options,
            final(self).has_connection == old(self).has_connection,
            final(self).device_active == old(self).device_active,
            final(self).amount_to_shift == old(self).amount_to_shift,
            final(self).note_config == old(self).note_config,
    {
        let has_sink = self.has_connection;
        let mut events: Vec<MidiEvent> = Vec::new();
        let n = self.keys.len();
        let mut i: usize = 0;
        while i < n
            invariant
                n == KEY_TABLE_SIZE,
                i <= n,
                old(self).keys@.len() == KEY_TABLE_SIZE,
                self.keys@.len() == KEY_TABLE_SIZE,
                has_sink == old(self).has_connection,
                self.port_options == old(self).port_options,
                self.has_connection == old(self).has_connection,
                self.device_active == old(self).device_active,
                self.amount_to_shift == old(self).amount_to_shift,
                self.note_config == old(self).note_config,
                forall|j: int| i <= j < KEY_TABLE_SIZE
                    ==> #[trigger] self.keys@[j] == old(self).keys@[j],
                forall|j: int| 0 <= j < i ==> {
                    &&& (#[trigger] self.keys@[j]).notes@ == fresh_notes(bindings_for(mapping@, j as u8))
                    &&& self.keys@[j].current_value == old(self).keys@[j].current_value
                },
                events@ == keys_release_events(old(self).keys@.take(i as int), has_sink),
            decreases n - i,
        {
            let bindings = lookup_bindings(mapping, i as u8);
            let evs = self.keys[i].update_mappings(&bindings, has_sink);
            push_events(&mut events, &evs);
            proof {
                let s = old(self).keys@;
                assert(s.take(i + 1).drop_last() =~= s.take(i as int));
                assert(s.take(i + 1).last() == s[i as int]);
                assert(events@ =~= keys_release_events(s.take(i + 1), has_sink));
            }
            i = i + 1;
        }
        proof {
            assert(old(self).keys@.take(old(self).keys@.len() as int) =~= old(self).keys@);
        }
        events
    }

    /// Records that the device layer was brought up by the host.
    pub fn device_started(&mut self)
        ensures
            *final(self) == (MidiService { device_active: true, ..*old(self) }),
    {
        self.device_active = true;
    }

    /// Validates a port selection against the current option list, changing
    /// nothing: selecting past the end of the list is `IndexOutOfRange`,
    /// selecting before any scan is `PortOptionsNotInitialised`, selecting
    /// the active port asks for nothing, and any other valid index asks the
    /// host to re-scan and connect.
    pub fn select_port(&mut self, option: usize) -> (r: Result<PortAction, MidiServiceError>)
        ensures
            *final(self) == *old(self),
            match old(self).port_options {
                None => r == Err::<PortAction, MidiServiceError>(MidiServiceError::PortOptionsNotInitialised),
                Some(options) => {
                    if option >= options@.len() {
                        r == Err::<PortAction, MidiServiceError>(MidiServiceError::IndexOutOfRange)
                    } else if options@[option as int].2 {
                        r == Ok::<PortAction, MidiServiceError>(PortAction::AlreadyActive)
                    } else {
                        r == Ok::<PortAction, MidiServiceError>(PortAction::Reconnect)
                    }
                },
            },
    {
        match &self.port_options {
            Some(options) => {
                if option >= options.len() {
                    Err(MidiServiceError::IndexOutOfRange)
                } else if options[option].2 {
                    Ok(PortAction::AlreadyActive)
                } else {
                    Ok(PortAction::Reconnect)
                }
            }
            None => Err(MidiServiceError::PortOptionsNotInitialised),
        }
    }

    /// Installs the result of a port scan: option `j` gets index `j`, the
    /// `j`-th scanned name, and the active flag exactly on `selected`; the
    /// connection presence is as the host reports it.
    pub fn apply_port_scan(&mut self, names: Vec<String>, selected: usize, connected: bool)
        ensures
            final(self).has_connection == connected,
            final(self).port_options matches Some(v) && v@.len() == names@.len()
                && forall|j: int| 0 <= j < v@.len() ==> {
                    &&& (#[trigger] v@[j]).0 == j
                    &&& v@[j].1 == names@[j]
                    &&& (v@[j].2 <==> j == selected)
                },
            final(self).device_active == old(self).device_active,
            final(self).keys == old(self).keys,
            final(self).amount_to_shift == old(self).amount_to_shift,
            final(self).note_config == old(self).note_config,
    {
        let ghost all_names = names@;
        let mut names = names;
        let mut options: Vec<PortOption> = Vec::new();
        let mut idx: usize = 0;
        let total: usize = names.len();
        proof {
            assert(all_names.skip(0) =~= all_names);
            assert(all_names.len() == total);
        }
        while names.len() > 0
            invariant
                idx == options@.len(),
                all_names.len() <= usize::MAX,
                idx + names@.len() == all_names.len(),
                names@ == all_names.skip(idx as int),
                forall|j: int| 0 <= j < idx ==> {
                    &&& (#[trigger] options@[j]).0 == j
                    &&& options@[j].1 == all_names[j]
                    &&& (options@[j].2 <==> j == selected)
                },
            decreases names@.len(),
        {
            let name = names.remove(0);
            proof {
                assert(all_names.skip(idx as int)[0] == all_names[idx as int]);
                assert(all_names.skip(idx as int).remove(0) =~= all_names.skip(idx + 1));
            }
            options.push(PortOption(idx, name, idx == selected));
            idx = idx + 1;
        }
        self.port_options = Some(options);
        self.has_connection = connected;
    }

    /// One tick of the whole engine: with no output connection the tick is
    /// refused and nothing changes; otherwise every key steps with the
    /// magnitude the snapshot holds for its code (0 if absent), under the
    /// shift in force (the configured amount while the modifier key is past
    /// its actuation point), and the emitted events come back in key-code
    /// order.
    pub fn poll(&mut self, snapshot: &Vec<(u16, u16)>, now_ms: u64) -> (r: Result<
        Vec<MidiEvent>,
        MidiServiceError,
    >)
        requires
            midi_service_wf(*old(self)),
            snapshot_wf(snapshot@),
        ensures
            midi_service_wf(*final(self)),
            !old(self).has_connection ==> r == Err::<Vec<MidiEvent>, MidiServiceError>(
                MidiServiceError::NoConnection,
            ) && *final(self) == *old(self),
            old(self).has_connection ==> {
                let shift = poll_shift(*old(self), snapshot@);
                &&& r is Ok
                &&& r->Ok_0@ == keys_poll_events(
                    old(self).keys@,
                    snapshot@,
                    now_ms,
                    shift,
                    old(self).note_config,
                )
                &&& forall|i: int| 0 <= i < KEY_TABLE_SIZE ==> {
                    let new_value = snapshot_value(snapshot@, i as u16);
                    &&& (#[trigger] final(self).keys@[i]).notes@ == notes_step(
                        old(self).keys@[i].notes@,
                        old(self).keys@[i].current_value,
                        new_value,
                        now_ms,
                        shift,
                        old(self).note_config,
                    ).0
                    &&& final(self).keys@[i].current_value == new_value
                }
                &&& final(self).port_options == old(self).port_options
                &&& final(self).has_connection == old(self).has_connection
                &&& final(self).device_active == old(self).device_active
                &&& final(self).amount_to_shift == old(self).amount_to_shift
                &&& final(self).note_config == old(self).note_config
            },
    {
        if !self.has_connection {
            return Err(MidiServiceError::NoConnection);
        }
        let modifier_value = lookup_snapshot(snapshot, MODIFIER_KEY_CODE);
        let shift: i8 = if modifier_value >= ACTUATION_POINT {
            self.amount_to_shift
        } else {
            0
        };
        let cfg = self.note_config;
        let mut events: Vec<MidiEvent> = Vec::new();
        let n = self.keys.len();
        let mut i: usize = 0;
        while i < n
            invariant
                n == KEY_TABLE_SIZE,
                i <= n,
                old(self).keys@.len() == KEY_TABLE_SIZE,
                self.keys@.len() == KEY_TABLE_SIZE,
                snapshot_wf(snapshot@),
                old(self).has_connection,
                shift == poll_shift(*old(self), snapshot@),
                cfg == old(self).note_config,
                self.port_options == old(self).port_options,
                self.has_connection == old(self).has_connection,
                self.device_active == old(self).device_active,
                self.amount_to_shift == old(self).amount_to_shift,
                self.note_config == old(self).note_config,
                forall|j: int| i <= j < KEY_TABLE_SIZE
                    ==> #[trigger] self.keys@[j] == old(self).keys@[j],
                forall|j: int| 0 <= j < i ==> {
                    let new_value = snapshot_value(snapshot@, j as u16);
                    &&& (#[trigger] self.keys@[j]).notes@ == notes_step(
                        old(self).keys@[j].notes@,
                        old(self).keys@[j].current_value,
                        new_value,
                        now_ms,
                        shift,
                        cfg,
                    ).0
                    &&& self.keys@[j].current_value == new_value
                },
                events@ == keys_poll_events(
                    old(self).keys@.take(i as int),
                    snapshot@,
                    now_ms,
                    shift,
                    cfg,
                ),
            decreases n - i,
        {
            let new_value = lookup_snapshot(snapshot, i as u16);
            proof {
                lemma_snapshot_value_bounded(snapshot@, i as u16);
            }
            let evs = self.keys[i].update_value(new_value, now_ms, shift, &cfg);
            push_events(&mut events, &evs);
            proof {
                let s = old(self).keys@;
                assert(s.take(i + 1).drop_last() =~= s.take(i as int));
                assert(s.take(i + 1).last() == s[i as int]);
                assert(events@ =~= keys_poll_events(s.take(i + 1), snapshot@, now_ms, shift, cfg));
            }
            i = i + 1;
        }
        proof {
            assert(old(self).keys@.take(old(self).keys@.len() as int) =~= old(self).keys@);
        }
        Ok(events)
    }

    /// Tears the engine down: force-releases every binding (emitting the
    /// owed note-offs while a connection exists), empties the mapping
    /// table's bindings, and tells the host which resources to release —
    /// the output connection if one is open, the device layer if it is up.
    /// A second call finds nothing left to release and asks for nothing.
    pub fn uninit(&mut self) -> (r: (Vec<MidiEvent>, TeardownActions))
        requires
            midi_service_wf(*old(self)),
        ensures
            midi_service_wf(*final(self)),
            r.1 == teardown_decision(*old(self)),
            r.0@ == keys_release_events(old(self).keys@, old(self).has_connection),
            torn_down(*final(self)),
            forall|i: int| 0 <= i < KEY_TABLE_SIZE
                ==> (#[trigger] final(self).keys@[i]).current_value
                    == old(self).keys@[i].current_value,
            final(self).port_options == old(self).port_options,
            final(self).amount_to_shift == old(self).amount_to_shift,
            final(self).note_config == old(self).note_config,
    {
        let actions = TeardownActions {
            close_output: self.has_connection,
            uninit_device: self.device_active,
        };
        let empty_mapping: Vec<(u8, Vec<(Channel, NoteID)>)> = Vec::new();
        let events = self.update_mapping(&empty_mapping);
        self.has_connection = false;
        self.device_active = false;
        (events, actions)
    }
}

/// One binding's share of a status snapshot.
#[derive(Debug, Clone, Copy, PartialEq, Eq, Structural)]
pub struct MidiEntry {
    pub note: NoteID,
    pub velocity: u16,
    pub channel: Channel,
    pub pressed: bool,
}

/// One key's share of a status snapshot: its magnitude and its bindings.
#[derive(Debug, Clone)]
pub struct MidiUpdateEntry {
    pub value: u16,
    pub notes: Vec<MidiEntry>,
}

/// A status snapshot: for every key worth reporting, its key code and its
/// entry, in ascending key-code order.
#[derive(Debug, Clone)]
pub struct MidiUpdate {
    pub data: Vec<(u8, MidiUpdateEntry)>,
}

/// A key is reported when it has at least one binding or a nonzero
/// magnitude.
pub open spec fn key_reported(k: Key) -> bool {
    k.notes@.len() > 0 || k.current_value > 0
}

/// What a status snapshot says of one binding.
pub open spec fn note_entry_of(n: Note) -> MidiEntry {
    MidiEntry { note: n.note_id, velocity: n.velocity, channel: n.channel, pressed: n.pressed }
}

impl MidiService {
    /// Builds the periodic status snapshot: exactly the keys with a binding
    /// or a nonzero magnitude, in ascending key-code order, each with its
    /// magnitude and each binding's note, velocity, channel and pressed
    /// flag.
    pub fn midi_update(&self) -> (r: MidiUpdate)
        requires
            midi_service_wf(*self),
        ensures
            forall|j: int| 0 <= j < r.data@.len() ==> {
                let code = (#[trigger] r.data@[j]).0;
                &&& key_reported(self.keys@[code as int])
                &&& r.data@[j].1.value == self.keys@[code as int].current_value
                &&& r.data@[j].1.notes@ == self.keys@[code as int].notes@.map_values(
                    |n: Note| note_entry_of(n),
                )
            },
            forall|j1: int, j2: int| 0 <= j1 < j2 < r.data@.len()
                ==> (#[trigger] r.data@[j1]).0 < (#[trigger] r.data@[j2]).0,
            forall|i: int| 0 <= i < KEY_TABLE_SIZE && key_reported(#[trigger] self.keys@[i])
                ==> exists|j: int| 0 <= j < r.data@.len() && (#[trigger] r.data@[j]).0 == i,
    {
        let mut data: Vec<(u8, MidiUpdateEntry)> = Vec::new();
        let n = self.keys.len();
        let mut i: usize = 0;
        while i < n
            invariant
                n == KEY_TABLE_SIZE,
                i <= n,
                self.keys@.len() == KEY_TABLE_SIZE,
                forall|j: int| 0 <= j < data@.len() ==> {
                    let code = (#[trigger] data@[j]).0;
                    &&& (code as int) < i
                    &&& key_reported(self.keys@[code as int])
                    &&& data@[j].1.value == self.keys@[code as int].current_value
                    &&& data@[j].1.notes@ == self.keys@[code as int].notes@.map_values(
                        |n2: Note| note_entry_of(n2),
                    )
                },
                forall|j1: int, j2: int| 0 <= j1 < j2 < data@.len()
                    ==> (#[trigger] data@[j1]).0 < (#[trigger] data@[j2]).0,
                forall|i2: int| 0 <= i2 < i && key_reported(#[trigger] self.keys@[i2])
                    ==> exists|j: int| 0 <= j < data@.len() && (#[trigger] data@[j]).0 == i2,
            decreases n - i,
        {
            let ghost pre_data = data@;
            let key = &self.keys[i];
            if key.notes.len() > 0 || key.current_value > 0 {
                let mut entry_notes: Vec<MidiEntry> = Vec::new();
                let mut j: usize = 0;
                while j < key.notes.len()
                    invariant
                        j <= key.notes@.len(),
                        entry_notes@ == key.notes@.take(j as int).map_values(
                            |n2: Note| note_entry_of(n2),
                        ),
                    decreases key.notes@.len() - j,
                {
                    let note = key.notes[j];
                    entry_notes.push(MidiEntry {
                        note: note.note_id,
                        velocity: note.velocity,
                        channel: note.channel,
                        pressed: note.pressed,
                    });
                    proof {
                        assert(key.notes@.take(j + 1).map_values(|n2: Note| note_entry_of(n2))
                            =~= key.notes@.take(j as int).map_values(|n2: Note| note_entry_of(n2))
                                .push(note_entry_of(key.notes@[j as int])));
                    }
                    j = j + 1;
                }
                proof {
                    assert(key.notes@.take(key.notes@.len() as int) =~= key.notes@);
                }
                data.push((i as u8, MidiUpdateEntry { value: key.current_value, notes: entry_notes }));
            }
            proof {
                assert forall|i2: int| 0 <= i2 < i + 1 && key_reported(#[trigger] self.keys@[i2])
                    implies exists|j: int| 0 <= j < data@.len() && (#[trigger] data@[j]).0 == i2 by {
                    if i2 == i {
                        assert(data@[data@.len() - 1].0 == i as u8);
                    } else {
                        let j0 = choose|j: int| 0 <= j < pre_data.len() && (#[trigger] pre_data[j]).0 == i2;
                        assert(data@[j0].0 == i2);
                    }
                }
            }
            i = i + 1;
        }
        let ghost final_data = data@;
        let r = MidiUpdate { data };
        proof {
            assert(r.data@ == final_data);
            assert forall|i2: int| 0 <= i2 < KEY_TABLE_SIZE && key_reported(#[trigger] self.keys@[i2])
                implies exists|j: int| 0 <= j < r.data@.len() && (#[trigger] r.data@[j]).0 == i2 by {
                let j0 = choose|j: int| 0 <= j < final_data.len() && (#[trigger] final_data[j]).0 == i2;
                assert(r.data@[j0].0 == i2);
            }
        }
        r
    }
}

/// What a shutdown of a given engine state must release.
pub open spec fn teardown_decision(s: MidiService) -> TeardownActions {
    TeardownActions { close_output: s.has_connection, uninit_device: s.device_active }
}

/// A torn-down engine: no connection, no device layer, no bindings left.
pub open spec fn torn_down(s: MidiService) -> bool {
    &&& !s.has_connection
    &&& !s.device_active
    &&& forall|i: int| 0 <= i < s.keys@.len() ==> (#[trigger] s.keys@[i]).notes@.len() == 0
}

/// LAW: teardown happens exactly once.  `uninit` leaves the engine torn
/// down, and on a torn-down engine the teardown decision asks for no
/// close and no device uninit, and the forced release emits no event — so
/// however shutdown is reached, the host closes the output connection and
/// uninitialises the device layer at most once each, and exactly once
/// when they were up.
pub proof fn lemma_teardown_idempotent(s: MidiService)
    requires
        torn_down(s),
    ensures
        teardown_decision(s) == (TeardownActions { close_output: false, uninit_device: false }),
        keys_release_events(s.keys@, s.has_connection) == Seq::<MidiEvent>::empty(),
{
    lemma_empty_keys_release(s.keys@, s.has_connection);
}

/// Keys with no bindings release nothing.
proof fn lemma_empty_keys_release(keys: Seq<Key>, has_sink: bool)
    requires
        forall|i: int| 0 <= i < keys.len() ==> (#[trigger] keys[i]).notes@.len() == 0,
    ensures
        keys_release_events(keys, has_sink) == Seq::<MidiEvent>::empty(),
    decreases keys.len(),
{
    if keys.len() > 0 {
        assert(forall|i: int| 0 <= i < keys.drop_last().len()
            ==> #[trigger] keys.drop_last()[i] == keys[i]);
        lemma_empty_keys_release(keys.drop_last(), has_sink);
        assert(keys_release_events(keys, has_sink)
            =~= notes_release(keys.last().notes@, has_sink).1);
        assert(keys.last().notes@.len() == 0);
    }
}

} // verus!
