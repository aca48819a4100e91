use vstd::prelude::*;

verus! {

use crate::config::NoteConfig;
use crate::event::MidiEvent;
use crate::note::{effective_note_of, fresh_note, note_release, note_step, opt_event_seq, Note};
use crate::{Channel, NoteID, MAG_ONE};

/// One physical key: the note bindings currently assigned to it and the
/// last magnitude observed for it.  A key may drive zero, one or many
/// bindings at once (polyphonic fan-out across channels and notes).
#[derive(Debug, Clone)]
pub struct Key {
    pub notes: Vec<Note>,
    pub current_value: u16,
}

/// One tick forwarded to a whole binding list: every binding steps with the
/// same inputs, and the emitted events are collected in binding order.
pub open spec fn notes_step(
    notes: Seq<Note>,
    previous_value: u16,
    new_value: u16,
    now_ms: u64,
    shift: i8,
    cfg: NoteConfig,
) -> (Seq<Note>, Seq<MidiEvent>)
    decreases notes.len(),
{
    if notes.len() == 0 {
        (Seq::empty(), Seq::empty())
    } else {
        let prefix = notes_step(notes.drop_last(), previous_value, new_value, now_ms, shift, cfg);
        let last = note_step(notes.last(), previous_value, new_value, now_ms, shift, cfg);
        (prefix.0.push(last.0), prefix.1 + opt_event_seq(last.1))
    }
}

/// Forced release of a whole binding list, in binding order.
pub open spec fn notes_release(notes: Seq<Note>, has_sink: bool) -> (Seq<Note>, Seq<MidiEvent>)
    decreases notes.len(),
{
    if notes.len() == 0 {
        (Seq::empty(), Seq::empty())
    } else {
        let prefix = notes_release(notes.drop_last(), has_sink);
        let last = note_release(notes.last(), has_sink);
        (prefix.0.push(last.0), prefix.1 + opt_event_seq(last.1))
    }
}

/// The fresh binding list a mapping update installs.
pub open spec fn fresh_notes(mappings: Seq<(Channel, NoteID)>) -> Seq<Note> {
    mappings.map_values(|m: (Channel, NoteID)| fresh_note(m.0, m.1))
}

/// A binding that owes a note-off when dropped: currently pressed with a
/// valid effective note.
pub open spec fn owes_note_off(n: Note) -> bool {
    n.pressed && effective_note_of(n.note_id, n.shifted_amount) is Some
}

/// The note-off a dropped binding owes.
pub open spec fn note_off_of(n: Note) -> MidiEvent {
    MidiEvent::NoteOff {
        note: effective_note_of(n.note_id, n.shifted_amount)->Some_0,
        velocity: n.velocity,
        channel: n.channel,
    }
}

/// The events a forced release of `notes` owes: exactly one note-off for
/// each binding that is pressed with a valid effective note, in binding
/// order.
pub open spec fn release_events_of(notes: Seq<Note>) -> Seq<MidiEvent> {
    notes.filter(|n: Note| owes_note_off(n)).map_values(|n: Note| note_off_of(n))
}

impl Key {
    /// A key with no bindings and no observed magnitude.
    pub fn new() -> (r: Key)
        ensures
            r.notes@.len() == 0,
            r.current_value == 0,
    {
        Key { notes: Vec::new(), current_value: 0 }
    }

    /// One tick of this key: forwards (previous magnitude, new magnitude,
    /// clock, shift, configuration) identically to every bound note, stores
    /// the new magnitude, and returns the emitted events in binding order.
    pub fn update_value(
        &mut self,
        new_value: u16,
        now_ms: u64,
        shifted_amount: i8,
        note_config: &NoteConfig,
    ) -> (r: Vec<MidiEvent>)
        requires
            new_value <= MAG_ONE,
        ensures
            final(self).notes@ == notes_step(
                old(self).notes@,
                old(self).current_value,
                new_value,
                now_ms,
                shifted_amount,
                *note_config,
            ).0,
            r@ == notes_step(
                old(self).notes@,
                old(self).current_value,
                new_value,
                now_ms,
                shifted_amount,
                *note_config,
            ).1,
            final(self).current_value == new_value,
    {
        let previous_value = self.current_value;
        let mut new_notes: Vec<Note> = Vec::new();
        let mut events: Vec<MidiEvent> = Vec::new();
        let mut i: usize = 0;
        while i < self.notes.len()
            invariant
                i <= self.notes@.len(),
                new_value <= MAG_ONE,
                *self == *old(self),
                previous_value == old(self).current_value,
                new_notes@ == notes_step(
                    old(self).notes@.take(i as int),
                    previous_value,
                    new_value,
                    now_ms,
                    shifted_amount,
                    *note_config,
                ).0,
                events@ == notes_step(
                    old(self).notes@.take(i as int),
                    previous_value,
                    new_value,
                    now_ms,
                    shifted_amount,
                    *note_config,
                ).1,
            decreases self.notes@.len() - i,
        {
            let ghost s = old(self).notes@;
            let mut note = self.notes[i];
            let ev = note.update_current_value(previous_value, new_value, now_ms, shifted_amount, note_config);
            new_notes.push(note);
            if let Some(e) = ev {
                events.push(e);
            }
            proof {
                assert(s.take(i + 1).drop_last() =~= s.take(i as int));
                assert(s.take(i + 1).last() == s[i as int]);
                assert(opt_event_seq(ev) + Seq::<MidiEvent>::empty() =~= opt_event_seq(ev));
                let pre = notes_step(s.take(i as int), previous_value, new_value, now_ms, shifted_amount, *note_config);
                let step = note_step(s[i as int], previous_value, new_value, now_ms, shifted_amount, *note_config);
                assert(events@ =~= pre.1 + opt_event_seq(step.1));
            }
            i = i + 1;
        }
        proof {
            assert(old(self).notes@.take(old(self).notes@.len() as int) =~= old(self).notes@);
        }
        self.notes = new_notes;
        self.current_value = new_value;
        events
    }

    /// Replaces this key's bindings: first force-releases every existing
    /// binding (a pressed note owes a note-off while a sink exists), then
    /// installs a fresh, unpressed binding for each (channel, note) pair.
    pub fn update_mappings(
        &mut self,
        mappings: &Vec<(Channel, NoteID)>,
        has_sink: bool,
    ) -> (r: Vec<MidiEvent>)
        ensures
            final(self).notes@ == fresh_notes(mappings@),
            final(self).current_value == old(self).current_value,
            r@ == notes_release(old(self).notes@, has_sink).1,
    {
        let mut events: Vec<MidiEvent> = Vec::new();
        let mut i: usize = 0;
        while i < self.notes.len()
            invariant
                i <= self.notes@.len(),
                *self == *old(self),
                events@ == notes_release(old(self).notes@.take(i as int), has_sink).1,
            decreases self.notes@.len() - i,
        {
            let ghost s = old(self).notes@;
            let mut note = self.notes[i];
            let ev = note.release(has_sink);
            if let Some(e) = ev {
                events.push(e);
            }
            proof {
                assert(s.take(i + 1).drop_last() =~= s.take(i as int));
                assert(s.take(i + 1).last() == s[i as int]);
                let pre = notes_release(s.take(i as int), has_sink);
                let rel = note_release(s[i as int], has_sink);
                assert(events@ =~= pre.1 + opt_event_seq(rel.1));
            }
            i = i + 1;
        }
        proof {
            assert(old(self).notes@.take(old(self).notes@.len() as int) =~= old(self).notes@);
        }
        let mut new_notes: Vec<Note> = Vec::new();
        let mut j: usize = 0;
        while j < mappings.len()
            invariant
                j <= mappings@.len(),
                new_notes@ == fresh_notes(mappings@.take(j as int)),
            decreases mappings@.len() - j,
        {
            let (channel, note_id) = mappings[j];
            new_notes.push(Note::new(channel, note_id));
            proof {
                assert(mappings@.take(j + 1) =~= mappings@.take(j as int).push(mappings@[j as int]));
                assert(new_notes@ =~= fresh_notes(mappings@.take(j + 1)));
            }
            j = j + 1;
        }
        proof {
            assert(mappings@.take(mappings@.len() as int) =~= mappings@);
        }
        self.notes = new_notes;
        events
    }
}

/// LAW: a mapping update on a key with pressed bindings emits exactly one
/// note-off per pressed binding with a valid effective note — in binding
/// order, each for that binding's own effective note, velocity and channel
/// — and the bindings it installs afterwards are all unpressed, so no new
/// binding becomes active before the old ones are released.
pub proof fn lemma_remap_releases(notes: Seq<Note>, mappings: Seq<(Channel, NoteID)>)
    ensures
        notes_release(notes, true).1 == release_events_of(notes),
        forall|i: int| 0 <= i < fresh_notes(mappings).len()
            ==> !(#[trigger] fresh_notes(mappings)[i]).pressed
                && fresh_notes(mappings)[i].velocity == 0,
    decreases notes.len(),
{
    if notes.len() == 0 {
        assert(notes.filter(|n: Note| owes_note_off(n)) =~= Seq::<Note>::empty());
        assert(release_events_of(notes) =~= Seq::<MidiEvent>::empty());
        assert(notes_release(notes, true).1 =~= Seq::<MidiEvent>::empty());
    } else {
        lemma_remap_releases(notes.drop_last(), mappings);
        let last = notes.last();
        let prefix_f = notes.drop_last().filter(|n: Note| owes_note_off(n));
        reveal_with_fuel(Seq::filter, 2);
        if owes_note_off(last) {
            assert(notes.filter(|n: Note| owes_note_off(n)) == prefix_f.push(last));
            assert(release_events_of(notes) =~= release_events_of(notes.drop_last()).push(note_off_of(last)));
            assert(notes_release(notes, true).1 =~= notes_release(notes.drop_last(), true).1.push(note_off_of(last)));
        } else {
            assert(notes.filter(|n: Note| owes_note_off(n)) == prefix_f);
            assert(notes_release(notes, true).1 =~= notes_release(notes.drop_last(), true).1);
        }
    }
}

/// The bindings after a tick are exactly the per-binding steps: binding `i`
/// of the result is `note_step` of binding `i` before, and every binding's
/// events depend on its own state alone (polyphonic fan-out is
/// independent per binding).
pub proof fn lemma_notes_step_index(
    notes: Seq<Note>,
    previous_value: u16,
    new_value: u16,
    now_ms: u64,
    shift: i8,
    cfg: NoteConfig,
)
    ensures
        notes_step(notes, previous_value, new_value, now_ms, shift, cfg).0.len() == notes.len(),
        forall|i: int| 0 <= i < notes.len()
            ==> notes_step(notes, previous_value, new_value, now_ms, shift, cfg).0[i]
                == note_step(#[trigger] notes[i], previous_value, new_value, now_ms, shift, cfg).0,
    decreases notes.len(),
{
    if notes.len() > 0 {
        lemma_notes_step_index(notes.drop_last(), previous_value, new_value, now_ms, shift, cfg);
        assert(forall|i: int| 0 <= i < notes.len() - 1 ==> notes.drop_last()[i] == #[trigger] notes[i]);
    }
}

} // verus!
