use vstd::prelude::*;

verus! {

use crate::config::NoteConfig;
use crate::event::{event_channel, event_magnitude, event_note, MidiEvent};
use crate::{Channel, NoteID, MAG_ONE, MIDI_NOTE_MAX, MIDI_NOTE_MIN};

/// When the anchor magnitude and the new magnitude differ by less than this,
/// or the magnitude regresses by more than this since the previous tick, the
/// hysteresis anchor is re-established (0.01 of a full press).
pub const ANCHOR_MARGIN: u16 = 100;

/// One note binding on a physical key: the base MIDI note, the channel, the
/// pressed/velocity bookkeeping and the hysteresis anchor used for velocity
/// estimation.  `lower_press_time` is the anchor: the millisecond timestamp
/// and magnitude at which the current rising excursion began.
#[derive(Debug, Clone, Copy, PartialEq)]
pub struct Note {
    pub note_id: NoteID,
    pub pressed: bool,
    pub shifted_amount: i8,
    pub velocity: u16,
    pub channel: Channel,
    pub lower_press_time: Option<(u64, u16)>,
}

/// Well-formedness: the velocity estimate and the anchor magnitude are
/// magnitudes, never above a full press.
pub open spec fn note_wf(n: Note) -> bool {
    &&& n.velocity <= MAG_ONE
    &&& match n.lower_press_time {
        Some((t, m)) => m <= MAG_ONE,
        None => true,
    }
}

/// A newly created, silent binding.
pub open spec fn fresh_note(channel: Channel, note: NoteID) -> Note {
    Note {
        note_id: note,
        pressed: false,
        shifted_amount: 0,
        velocity: 0,
        channel,
        lower_press_time: None,
    }
}

/// The note number actually played: the base note plus the applied shift,
/// valid only inside the playable range [MIDI_NOTE_MIN, MIDI_NOTE_MAX].
pub open spec fn effective_note_of(note_id: NoteID, shifted: i8) -> Option<NoteID> {
    let computed = note_id as int + shifted as int;
    if MIDI_NOTE_MIN <= computed && computed <= MIDI_NOTE_MAX {
        Some(computed as NoteID)
    } else {
        None
    }
}

/// Milliseconds since the anchor was set; zero if the clock reads earlier
/// than the anchor.
pub open spec fn elapsed_since(t: u64, now_ms: u64) -> u64 {
    if now_ms >= t {
        (now_ms - t) as u64
    } else {
        0
    }
}

/// The velocity estimate over one rising excursion: the magnitude gained
/// since the anchor, divided by the time it took, scaled by the velocity
/// sensitivity, and clamped to [0, MAG_ONE].  A fall or stall estimates 0;
/// a rise over no measurable time saturates.
pub open spec fn velocity_estimate(anchor_mag: u16, new_value: u16, scale: u32, elapsed_ms: u64) -> u16 {
    if new_value <= anchor_mag {
        0
    } else if elapsed_ms == 0 {
        MAG_ONE
    } else {
        let raw = (new_value - anchor_mag) * (scale as int) / (10 * elapsed_ms as int);
        if raw >= MAG_ONE {
            MAG_ONE
        } else {
            raw as u16
        }
    }
}

/// Distance between two magnitudes.
pub open spec fn mag_diff(a: u16, b: u16) -> u16 {
    if a >= b {
        (a - b) as u16
    } else {
        (b - a) as u16
    }
}

/// The hysteresis-anchor and velocity phase of one tick.  The anchor is
/// (re)established when the magnitude returns to 0 or a rising edge starts
/// from 0 below the threshold; otherwise, while an anchor exists, the
/// velocity is estimated against it, and the anchor is re-taken when the
/// magnitude stalls near it or regresses since the previous tick.
pub open spec fn note_after_sample(
    n: Note,
    previous_value: u16,
    new_value: u16,
    now_ms: u64,
    cfg: NoteConfig,
) -> Note {
    if (new_value > 0 && previous_value == 0 && new_value < cfg.threshold) || new_value == 0 {
        Note { lower_press_time: Some((now_ms, new_value)), velocity: 0, ..n }
    } else {
        match n.lower_press_time {
            Some((t, d)) => {
                let vel = if new_value == d {
                    0u16
                } else {
                    velocity_estimate(d, new_value, cfg.velocity_scale, elapsed_since(t, now_ms))
                };
                let anchor = if mag_diff(d, new_value) < ANCHOR_MARGIN
                    || (new_value as int + ANCHOR_MARGIN as int) < previous_value as int {
                    Some((now_ms, new_value))
                } else {
                    n.lower_press_time
                };
                Note { velocity: vel, lower_press_time: anchor, ..n }
            }
            None => n,
        }
    }
}

/// The shift phase of one tick: the latest global shift is taken on only
/// while the note is unpressed, so an in-flight press keeps the pitch it
/// was turned on with.
pub open spec fn note_after_shift(n: Note, shift: i8) -> Note {
    if shift != n.shifted_amount && !n.pressed {
        Note { shifted_amount: shift, ..n }
    } else {
        n
    }
}

/// The emission phase of one tick: with a valid effective note, crossing
/// the threshold upward turns the note on, staying above it with a changed
/// magnitude sends aftertouch, and falling to or below it turns it off.
/// With the effective note out of range nothing is emitted.
pub open spec fn note_emit(
    n: Note,
    previous_value: u16,
    new_value: u16,
    cfg: NoteConfig,
) -> (Note, Option<MidiEvent>) {
    match effective_note_of(n.note_id, n.shifted_amount) {
        Some(eff) => {
            if new_value > cfg.threshold {
                if !n.pressed {
                    (
                        Note { pressed: true, ..n },
                        Some(MidiEvent::NoteOn { note: eff, velocity: n.velocity, channel: n.channel }),
                    )
                } else if new_value != previous_value {
                    (
                        n,
                        Some(MidiEvent::PolyAftertouch { note: eff, pressure: new_value, channel: n.channel }),
                    )
                } else {
                    (n, None)
                }
            } else {
                if n.pressed {
                    (
                        Note { pressed: false, ..n },
                        Some(MidiEvent::NoteOff { note: eff, velocity: n.velocity, channel: n.channel }),
                    )
                } else {
                    (n, None)
                }
            }
        }
        None => (n, None),
    }
}

/// One full tick of the note state machine: sample, shift, then emit.
pub open spec fn note_step(
    n: Note,
    previous_value: u16,
    new_value: u16,
    now_ms: u64,
    shift: i8,
    cfg: NoteConfig,
) -> (Note, Option<MidiEvent>) {
    note_emit(
        note_after_shift(note_after_sample(n, previous_value, new_value, now_ms, cfg), shift),
        previous_value,
        new_value,
        cfg,
    )
}

/// Forced release of a binding that is being dropped: while an output sink
/// exists and the note is pressed, a note-off for its (possibly stale)
/// effective note is owed before the binding may be discarded.
pub open spec fn note_release(n: Note, has_sink: bool) -> (Note, Option<MidiEvent>) {
    if has_sink && n.pressed {
        match effective_note_of(n.note_id, n.shifted_amount) {
            Some(eff) => (
                Note { pressed: false, ..n },
                Some(MidiEvent::NoteOff { note: eff, velocity: n.velocity, channel: n.channel }),
            ),
            None => (Note { pressed: false, ..n }, None),
        }
    } else {
        (n, None)
    }
}

/// Computes `velocity_estimate` without overflow.
fn estimate_velocity(anchor_mag: u16, new_value: u16, scale: u32, elapsed_ms: u64) -> (r: u16)
    requires
        new_value <= MAG_ONE,
    ensures
        r == velocity_estimate(anchor_mag, new_value, scale, elapsed_ms),
        r <= MAG_ONE,
{
    if new_value <= anchor_mag {
        0
    } else if elapsed_ms == 0 {
        MAG_ONE
    } else {
        let delta: u64 = (new_value - anchor_mag) as u64;
        proof {
            assert(delta * (scale as u64) <= MAG_ONE * (u32::MAX as u64)) by (nonlinear_arith)
                requires
                    delta <= MAG_ONE,
                    scale as u64 <= u32::MAX as u64,
            ;
        }
        let num: u64 = delta * (scale as u64);
        if elapsed_ms > u64::MAX / 10 {
            proof {
                assert(num < 10 * elapsed_ms as int) by (nonlinear_arith)
                    requires
                        num <= MAG_ONE * (u32::MAX as u64),
                        elapsed_ms > u64::MAX / 10,
                ;
                vstd::arithmetic::div_mod::lemma_basic_div(num as int, 10 * elapsed_ms as int);
            }
            0
        } else {
            let q: u64 = num / (10 * elapsed_ms);
            if q >= MAG_ONE as u64 {
                MAG_ONE
            } else {
                q as u16
            }
        }
    }
}

impl Note {
    /// A fresh, silent binding of `note` on `channel`.
    pub fn new(channel: Channel, note: NoteID) -> (r: Note)
        ensures
            r == fresh_note(channel, note),
            note_wf(r),
    {
        Note {
            note_id: note,
            pressed: false,
            velocity: 0,
            shifted_amount: 0,
            channel,
            lower_press_time: None,
        }
    }

    /// The note number this binding currently plays, if it is in range.
    pub fn get_effective_note(&self) -> (r: Option<NoteID>)
        ensures
            r == effective_note_of(self.note_id, self.shifted_amount),
    {
        let computed: i16 = self.note_id as i16 + self.shifted_amount as i16;
        if computed >= MIDI_NOTE_MIN as i16 && computed <= MIDI_NOTE_MAX as i16 {
            Some(computed as NoteID)
        } else {
            None
        }
    }

    /// One tick of this binding: updates the hysteresis anchor, the velocity
    /// estimate, the applied shift and the pressed state, and decides the
    /// MIDI event to emit, exactly as `note_step` says.
    pub fn update_current_value(
        &mut self,
        previous_value: u16,
        new_value: u16,
        now_ms: u64,
        shifted_amount: i8,
        note_config: &NoteConfig,
    ) -> (r: Option<MidiEvent>)
        requires
            new_value <= MAG_ONE,
        ensures
            *final(self) == note_step(*old(self), previous_value, new_value, now_ms, shifted_amount, *note_config).0,
            r == note_step(*old(self), previous_value, new_value, now_ms, shifted_amount, *note_config).1,
    {
        if (new_value > 0 && previous_value == 0 && new_value < note_config.threshold)
            || new_value == 0 {
            self.lower_press_time = Some((now_ms, new_value));
            self.velocity = 0;
        } else if let Some((prev_time, prev_depth)) = self.lower_press_time {
            let elapsed: u64 = if now_ms >= prev_time {
                now_ms - prev_time
            } else {
                0
            };
            if new_value == prev_depth {
                self.velocity = 0;
            } else {
                self.velocity = estimate_velocity(prev_depth, new_value, note_config.velocity_scale, elapsed);
            }
            let diff: u16 = if prev_depth >= new_value {
                prev_depth - new_value
            } else {
                new_value - prev_depth
            };
            if diff < ANCHOR_MARGIN
                || (new_value as u32) + (ANCHOR_MARGIN as u32) < (previous_value as u32) {
                self.lower_press_time = Some((now_ms, new_value));
            }
        }
        assert(*self == note_after_sample(*old(self), previous_value, new_value, now_ms, *note_config));

        if shifted_amount != self.shifted_amount && !self.pressed {
            self.shifted_amount = shifted_amount;
        }

        let mut result: Option<MidiEvent> = None;
        if let Some(eff) = self.get_effective_note() {
            if new_value > note_config.threshold {
                if !self.pressed {
                    result = Some(MidiEvent::NoteOn {
                        note: eff,
                        velocity: self.velocity,
                        channel: self.channel,
                    });
                    self.pressed = true;
                } else if new_value != previous_value {
                    result = Some(MidiEvent::PolyAftertouch {
                        note: eff,
                        pressure: new_value,
                        channel: self.channel,
                    });
                }
            } else {
                if self.pressed {
                    result = Some(MidiEvent::NoteOff {
                        note: eff,
                        velocity: self.velocity,
                        channel: self.channel,
                    });
                    self.pressed = false;
                }
            }
        }
        result
    }

    /// Releases a binding that is being dropped, per `note_release`.
    pub fn release(&mut self, has_sink: bool) -> (r: Option<MidiEvent>)
        ensures
            *final(self) == note_release(*old(self), has_sink).0,
            r == note_release(*old(self), has_sink).1,
    {
        let mut result: Option<MidiEvent> = None;
        if has_sink && self.pressed {
            if let Some(eff) = self.get_effective_note() {
                result = Some(MidiEvent::NoteOff {
                    note: eff,
                    velocity: self.velocity,
                    channel: self.channel,
                });
            }
            self.pressed = false;
        }
        result
    }
}

/// One tick's input to a binding: the key's previous and new magnitude, the
/// tick's clock reading, and the global shift in force this tick.
#[derive(Debug, Clone, Copy, PartialEq)]
pub struct TickInput {
    pub previous_value: u16,
    pub new_value: u16,
    pub now_ms: u64,
    pub shift: i8,
}

/// A tick input whose magnitude is a magnitude.
pub open spec fn tick_wf(t: TickInput) -> bool {
    t.new_value <= MAG_ONE
}

pub open spec fn ticks_wf(inputs: Seq<TickInput>) -> bool {
    forall|i: int| 0 <= i < inputs.len() ==> tick_wf(#[trigger] inputs[i])
}

/// The event of one step, as a (possibly empty) event sequence.
pub open spec fn opt_event_seq(e: Option<MidiEvent>) -> Seq<MidiEvent> {
    match e {
        Some(ev) => seq![ev],
        None => Seq::empty(),
    }
}

/// A whole run of the note state machine over a sequence of tick inputs:
/// the final binding state and the events emitted, in order.
pub open spec fn note_run(n: Note, inputs: Seq<TickInput>, cfg: NoteConfig) -> (Note, Seq<MidiEvent>)
    decreases inputs.len(),
{
    if inputs.len() == 0 {
        (n, Seq::empty())
    } else {
        let first = inputs[0];
        let step = note_step(n, first.previous_value, first.new_value, first.now_ms, first.shift, cfg);
        let rest = note_run(step.0, inputs.drop_first(), cfg);
        (rest.0, opt_event_seq(step.1) + rest.1)
    }
}

/// The alternation discipline of an event stream, starting from a given
/// pressed state: a note-on only while unpressed, a note-off or aftertouch
/// only while pressed.  So from an unpressed start the stream reads
/// note-on, aftertouches, note-off, repeated — never two note-ons without a
/// note-off between them.
pub open spec fn events_alternate_from(events: Seq<MidiEvent>, pressed: bool) -> bool
    decreases events.len(),
{
    events.len() == 0 || {
        let ok = match events[0] {
            MidiEvent::NoteOn { .. } => !pressed,
            MidiEvent::NoteOff { .. } => pressed,
            MidiEvent::PolyAftertouch { .. } => pressed,
        };
        let next = match events[0] {
            MidiEvent::NoteOn { .. } => true,
            MidiEvent::NoteOff { .. } => false,
            MidiEvent::PolyAftertouch { .. } => pressed,
        };
        ok && events_alternate_from(events.drop_first(), next)
    }
}

/// Every event in the stream plays a note inside the playable MIDI range.
pub open spec fn all_notes_in_range(events: Seq<MidiEvent>) -> bool {
    forall|i: int| 0 <= i < events.len()
        ==> MIDI_NOTE_MIN <= event_note(#[trigger] events[i]) <= MIDI_NOTE_MAX
}

/// Every event in the stream carries a velocity or pressure in [0, MAG_ONE].
pub open spec fn all_magnitudes_bounded(events: Seq<MidiEvent>) -> bool {
    forall|i: int| 0 <= i < events.len() ==> event_magnitude(#[trigger] events[i]) <= MAG_ONE
}

/// One step emits a note-on only from an unpressed state, a note-off or an
/// aftertouch only from a pressed one, and the new pressed state follows
/// the event; an eventless step leaves the pressed state alone.  Emitted
/// notes are always in the playable range, on the binding's own channel.
pub proof fn lemma_note_step_shape(
    n: Note,
    previous_value: u16,
    new_value: u16,
    now_ms: u64,
    shift: i8,
    cfg: NoteConfig,
)
    ensures
        ({
            let step = note_step(n, previous_value, new_value, now_ms, shift, cfg);
            &&& (step.1 matches Some(e) ==> {
                &&& MIDI_NOTE_MIN <= event_note(e) <= MIDI_NOTE_MAX
                &&& event_channel(e) == n.channel
                &&& (e matches MidiEvent::NoteOn { .. } ==> !n.pressed && step.0.pressed)
                &&& (e matches MidiEvent::NoteOff { .. } ==> n.pressed && !step.0.pressed)
                &&& (e matches MidiEvent::PolyAftertouch { .. } ==> n.pressed && step.0.pressed)
            })
            &&& (step.1 is None ==> step.0.pressed == n.pressed)
            &&& step.0.note_id == n.note_id
            &&& step.0.channel == n.channel
        }),
{
}

/// One step keeps the binding well formed and never emits a velocity or
/// pressure above a full press.
pub proof fn lemma_note_step_wf(
    n: Note,
    previous_value: u16,
    new_value: u16,
    now_ms: u64,
    shift: i8,
    cfg: NoteConfig,
)
    requires
        note_wf(n),
        new_value <= MAG_ONE,
    ensures
        note_wf(note_step(n, previous_value, new_value, now_ms, shift, cfg).0),
        note_step(n, previous_value, new_value, now_ms, shift, cfg).1 matches Some(e)
            ==> event_magnitude(e) <= MAG_ONE,
{
    let n1 = note_after_sample(n, previous_value, new_value, now_ms, cfg);
    assert(n1.velocity <= MAG_ONE) by {
        if !((new_value > 0 && previous_value == 0 && new_value < cfg.threshold) || new_value == 0) {
            match n.lower_press_time {
                Some((t, d)) => {
                    if new_value != d {
                        lemma_velocity_estimate_bounded(d, new_value, cfg.velocity_scale, elapsed_since(t, now_ms));
                    }
                }
                None => {}
            }
        }
    }
}

/// The velocity estimate never exceeds a full press.
pub proof fn lemma_velocity_estimate_bounded(anchor_mag: u16, new_value: u16, scale: u32, elapsed_ms: u64)
    ensures
        velocity_estimate(anchor_mag, new_value, scale, elapsed_ms) <= MAG_ONE,
{
    if new_value > anchor_mag && elapsed_ms > 0 {
        let num = (new_value - anchor_mag) * (scale as int);
        let den = 10 * elapsed_ms as int;
        vstd::arithmetic::mul::lemma_mul_nonnegative((new_value - anchor_mag) as int, scale as int);
        assert(den > 0);
        vstd::arithmetic::div_mod::lemma_div_pos_is_pos(num, den);
    }
}

/// LAW: on any magnitude sequence, a fixed binding's emitted events follow
/// the alternation discipline from its starting pressed state — from a
/// fresh binding: note-on, aftertouches, note-off, repeated, and never two
/// note-ons without an intervening note-off.
pub proof fn lemma_note_events_alternate(n: Note, inputs: Seq<TickInput>, cfg: NoteConfig)
    ensures
        events_alternate_from(note_run(n, inputs, cfg).1, n.pressed),
    decreases inputs.len(),
{
    if inputs.len() > 0 {
        let first = inputs[0];
        let step = note_step(n, first.previous_value, first.new_value, first.now_ms, first.shift, cfg);
        let rest = note_run(step.0, inputs.drop_first(), cfg);
        lemma_note_step_shape(n, first.previous_value, first.new_value, first.now_ms, first.shift, cfg);
        lemma_note_events_alternate(step.0, inputs.drop_first(), cfg);
        match step.1 {
            Some(ev) => {
                let events = opt_event_seq(step.1) + rest.1;
                assert(events[0] == ev);
                assert(events.drop_first() =~= rest.1);
            }
            None => {
                assert(opt_event_seq(step.1) + rest.1 =~= rest.1);
            }
        }
    }
}

/// The pressed state after the first `k` events of a stream, starting from
/// `pressed`: a note-on leaves it pressed, a note-off unpressed, an
/// aftertouch leaves it alone.
pub open spec fn pressed_after(events: Seq<MidiEvent>, pressed: bool, k: int) -> bool
    decreases k,
{
    if k <= 0 {
        pressed
    } else {
        match events[k - 1] {
            MidiEvent::NoteOn { .. } => true,
            MidiEvent::NoteOff { .. } => false,
            MidiEvent::PolyAftertouch { .. } => pressed_after(events, pressed, k - 1),
        }
    }
}

/// Consuming the first event advances the start state of the rest.
proof fn lemma_pressed_after_shift(events: Seq<MidiEvent>, pressed: bool, k: int)
    requires
        1 <= k <= events.len(),
    ensures
        pressed_after(events, pressed, k) == pressed_after(
            events.drop_first(),
            match events[0] {
                MidiEvent::NoteOn { .. } => true,
                MidiEvent::NoteOff { .. } => false,
                MidiEvent::PolyAftertouch { .. } => pressed,
            },
            k - 1,
        ),
    decreases k,
{
    reveal_with_fuel(pressed_after, 2);
    if k > 1 {
        lemma_pressed_after_shift(events, pressed, k - 1);
        assert(events.drop_first()[k - 2] == events[k - 1]);
    }
}

/// In an alternating stream, each event is legal for the pressed state the
/// events before it produce: a note-on only while unpressed, a note-off or
/// aftertouch only while pressed.
pub proof fn lemma_alternate_at(events: Seq<MidiEvent>, pressed: bool, k: int)
    requires
        events_alternate_from(events, pressed),
        0 <= k < events.len(),
    ensures
        match events[k] {
            MidiEvent::NoteOn { .. } => !pressed_after(events, pressed, k),
            MidiEvent::NoteOff { .. } => pressed_after(events, pressed, k),
            MidiEvent::PolyAftertouch { .. } => pressed_after(events, pressed, k),
        },
    decreases k,
{
    if k > 0 {
        let next = match events[0] {
            MidiEvent::NoteOn { .. } => true,
            MidiEvent::NoteOff { .. } => false,
            MidiEvent::PolyAftertouch { .. } => pressed,
        };
        lemma_alternate_at(events.drop_first(), next, k - 1);
        lemma_pressed_after_shift(events, pressed, k);
        assert(events.drop_first()[k - 1] == events[k]);
    }
}

/// After a note-on, the state stays pressed for as long as no note-off
/// follows.
proof fn lemma_pressed_persists(events: Seq<MidiEvent>, pressed: bool, i: int, j: int)
    requires
        0 <= i < j <= events.len(),
        events[i] matches MidiEvent::NoteOn { .. },
        forall|k: int| i < k < j ==> !((#[trigger] events[k]) matches MidiEvent::NoteOff { .. }),
    ensures
        pressed_after(events, pressed, j),
    decreases j - i,
{
    if j > i + 1 {
        lemma_pressed_persists(events, pressed, i, j - 1);
    }
}

/// LAW: in an alternating stream — so in any run of the note state machine,
/// by `lemma_note_events_alternate` — two note-ons always have a note-off
/// between them: no note is turned on twice without having been turned off.
pub proof fn lemma_no_double_note_on(events: Seq<MidiEvent>, pressed: bool, i: int, j: int)
    requires
        events_alternate_from(events, pressed),
        0 <= i < j < events.len(),
        events[i] matches MidiEvent::NoteOn { .. },
        events[j] matches MidiEvent::NoteOn { .. },
    ensures
        exists|k: int| i < k < j && (#[trigger] events[k]) matches MidiEvent::NoteOff { .. },
{
    if forall|k: int| i < k < j ==> !((#[trigger] events[k]) matches MidiEvent::NoteOff { .. }) {
        lemma_pressed_persists(events, pressed, i, j);
        lemma_alternate_at(events, pressed, j);
        assert(false);
    }
}

/// LAW: whenever any on/off/aftertouch is emitted, the note played is
/// within the playable MIDI range; a shift that pushes the effective note
/// outside the range suppresses emission instead.
pub proof fn lemma_note_run_notes_in_range(n: Note, inputs: Seq<TickInput>, cfg: NoteConfig)
    ensures
        all_notes_in_range(note_run(n, inputs, cfg).1),
    decreases inputs.len(),
{
    if inputs.len() > 0 {
        let first = inputs[0];
        let step = note_step(n, first.previous_value, first.new_value, first.now_ms, first.shift, cfg);
        let rest = note_run(step.0, inputs.drop_first(), cfg);
        lemma_note_step_shape(n, first.previous_value, first.new_value, first.now_ms, first.shift, cfg);
        lemma_note_run_notes_in_range(step.0, inputs.drop_first(), cfg);
        let events = opt_event_seq(step.1) + rest.1;
        assert forall|i: int| 0 <= i < events.len()
            implies MIDI_NOTE_MIN <= event_note(#[trigger] events[i]) <= MIDI_NOTE_MAX by {
            if i >= opt_event_seq(step.1).len() {
                assert(events[i] == rest.1[i - opt_event_seq(step.1).len()]);
            }
        }
    }
}

/// LAW: on well-formed inputs a well-formed binding stays well formed and
/// every emitted velocity or pressure lies in [0, MAG_ONE].
pub proof fn lemma_note_run_magnitudes_bounded(n: Note, inputs: Seq<TickInput>, cfg: NoteConfig)
    requires
        note_wf(n),
        ticks_wf(inputs),
    ensures
        note_wf(note_run(n, inputs, cfg).0),
        all_magnitudes_bounded(note_run(n, inputs, cfg).1),
    decreases inputs.len(),
{
    if inputs.len() > 0 {
        let first = inputs[0];
        let step = note_step(n, first.previous_value, first.new_value, first.now_ms, first.shift, cfg);
        let rest = note_run(step.0, inputs.drop_first(), cfg);
        lemma_note_step_wf(n, first.previous_value, first.new_value, first.now_ms, first.shift, cfg);
        assert(ticks_wf(inputs.drop_first())) by {
            assert(forall|i: int| 0 <= i < inputs.drop_first().len()
                ==> #[trigger] inputs.drop_first()[i] == inputs[i + 1]);
        }
        lemma_note_run_magnitudes_bounded(step.0, inputs.drop_first(), cfg);
        let events = opt_event_seq(step.1) + rest.1;
        assert forall|i: int| 0 <= i < events.len()
            implies event_magnitude(#[trigger] events[i]) <= MAG_ONE by {
            if i >= opt_event_seq(step.1).len() {
                assert(events[i] == rest.1[i - opt_event_seq(step.1).len()]);
            }
        }
    }
}

} // verus!
