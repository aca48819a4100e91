use vstd::prelude::*;

verus! {

use crate::config::NoteConfig;
use crate::note::elapsed_since;
use crate::{Channel, NoteID};

/// Default pitch shift applied while the modifier key is held: one octave.
pub fn default_shift_amount() -> (r: u8)
    ensures
        r == 12,
{
    12
}

/// The persisted application settings: a (channel -> [(key code, note)])
/// keymapping, the modifier shift amount, and the note configuration.
pub struct AppSettings {
    pub keymapping: Vec<(Channel, Vec<(u8, NoteID)>)>,
    pub shift_amount: u8,
    pub note_config: NoteConfig,
}

/// One channel's contribution to the flattened keymapping: a
/// (key code, (channel, note)) pair per entry, in entry order.
pub open spec fn channel_bindings(entry: (Channel, Vec<(u8, NoteID)>)) -> Seq<(u8, (Channel, NoteID))> {
    entry.1@.map_values(|e: (u8, NoteID)| (e.0, (entry.0, e.1)))
}

/// The whole keymapping flattened to (key code, (channel, note)) pairs, in
/// traversal order: channel entries in list order, each channel's pairs in
/// entry order.
pub open spec fn flat_bindings(keymapping: Seq<(Channel, Vec<(u8, NoteID)>)>) -> Seq<(u8, (Channel, NoteID))>
    decreases keymapping.len(),
{
    if keymapping.len() == 0 {
        Seq::empty()
    } else {
        flat_bindings(keymapping.drop_last()) + channel_bindings(keymapping.last())
    }
}

/// The bindings the flattened keymapping assigns to one key code, in
/// traversal order.
pub open spec fn key_bindings(flat: Seq<(u8, (Channel, NoteID))>, code: u8) -> Seq<(Channel, NoteID)> {
    flat.filter(|p: (u8, (Channel, NoteID))| p.0 == code).map_values(
        |p: (u8, (Channel, NoteID))| p.1,
    )
}

/// Flattens the keymapping, per `flat_bindings`.
fn flatten_keymapping(keymapping: &Vec<(Channel, Vec<(u8, NoteID)>)>) -> (r: Vec<(u8, (Channel, NoteID))>)
    ensures
        r@ == flat_bindings(keymapping@),
{
    let mut out: Vec<(u8, (Channel, NoteID))> = Vec::new();
    let mut ci: usize = 0;
    while ci < keymapping.len()
        invariant
            ci <= keymapping@.len(),
            out@ == flat_bindings(keymapping@.take(ci as int)),
        decreases keymapping@.len() - ci,
    {
        let chan: Channel = keymapping[ci].0;
        let entries = &keymapping[ci].1;
        let mut ei: usize = 0;
        while ei < entries.len()
            invariant
                ei <= entries@.len(),
                chan == keymapping@[ci as int].0,
                entries@ == keymapping@[ci as int].1@,
                ci < keymapping@.len(),
                out@ == flat_bindings(keymapping@.take(ci as int))
                    + channel_bindings(keymapping@[ci as int]).take(ei as int),
            decreases entries@.len() - ei,
        {
            let (code, note) = entries[ei];
            out.push((code, (chan, note)));
            proof {
                let cb = channel_bindings(keymapping@[ci as int]);
                assert(cb[ei as int] == (code, (chan, note)));
                assert(cb.take(ei + 1) =~= cb.take(ei as int).push(cb[ei as int]));
                assert(out@ =~= flat_bindings(keymapping@.take(ci as int)) + cb.take(ei + 1));
            }
            ei = ei + 1;
        }
        proof {
            let cb = channel_bindings(keymapping@[ci as int]);
            assert(cb.take(entries@.len() as int) =~= cb);
            assert(keymapping@.take(ci + 1).drop_last() =~= keymapping@.take(ci as int));
            assert(keymapping@.take(ci + 1).last() == keymapping@[ci as int]);
            assert(out@ =~= flat_bindings(keymapping@.take(ci + 1)));
        }
        ci = ci + 1;
    }
    proof {
        assert(keymapping@.take(keymapping@.len() as int) =~= keymapping@);
    }
    out
}

/// Whether some pair of the flattened keymapping is for `code`.
pub open spec fn code_occurs(flat: Seq<(u8, (Channel, NoteID))>, code: u8) -> bool {
    exists|p: int| 0 <= p < flat.len() && (#[trigger] flat[p]).0 == code
}

/// Whether the inverted mapping holds an entry for `code`.
pub open spec fn code_listed(r: Seq<(u8, Vec<(Channel, NoteID)>)>, code: u8) -> bool {
    exists|j: int| 0 <= j < r.len() && (#[trigger] r[j]).0 == code
}

/// Whether the accumulated result already holds an entry for `code`.
fn contains_code(out: &Vec<(u8, Vec<(Channel, NoteID)>)>, code: u8) -> (r: bool)
    ensures
        r == code_listed(out@, code),
{
    let mut i: usize = 0;
    while i < out.len()
        invariant
            i <= out@.len(),
            forall|j: int| 0 <= j < i ==> (#[trigger] out@[j]).0 != code,
        decreases out@.len() - i,
    {
        if out[i].0 == code {
            return true;
        }
        i = i + 1;
    }
    false
}

/// Collects every binding `flat` assigns to `code`, per `key_bindings`.
fn collect_bindings(flat: &Vec<(u8, (Channel, NoteID))>, code: u8) -> (r: Vec<(Channel, NoteID)>)
    ensures
        r@ == key_bindings(flat@, code),
{
    let mut r: Vec<(Channel, NoteID)> = Vec::new();
    let mut i: usize = 0;
    proof {
        assert(flat@.take(0) =~= Seq::<(u8, (Channel, NoteID))>::empty());
        assert(key_bindings(flat@.take(0), code) =~= Seq::<(Channel, NoteID)>::empty());
    }
    while i < flat.len()
        invariant
            i <= flat@.len(),
            r@ == key_bindings(flat@.take(i as int), code),
        decreases flat@.len() - i,
    {
        let entry = flat[i];
        if entry.0 == code {
            r.push(entry.1);
        }
        proof {
            let t = flat@.take(i + 1);
            assert(t.drop_last() =~= flat@.take(i as int));
            assert(t.last() == flat@[i as int]);
            reveal_with_fuel(Seq::filter, 2);
            if entry.0 == code {
                assert(t.filter(|p: (u8, (Channel, NoteID))| p.0 == code)
                    == flat@.take(i as int).filter(|p: (u8, (Channel, NoteID))| p.0 == code)
                        .push(flat@[i as int]));
                assert(r@ =~= key_bindings(t, code));
            } else {
                assert(t.filter(|p: (u8, (Channel, NoteID))| p.0 == code)
                    == flat@.take(i as int).filter(|p: (u8, (Channel, NoteID))| p.0 == code));
                assert(r@ =~= key_bindings(t, code));
            }
        }
        i = i + 1;
    }
    proof {
        assert(flat@.take(flat@.len() as int) =~= flat@);
    }
    r
}

impl AppSettings {
    /// Inverts the persisted (channel -> [(key, note)]) keymapping into the
    /// (key -> [(channel, note)]) form the mapping table takes: one entry
    /// per distinct key code, holding every binding the keymapping assigns
    /// to that key, in traversal order.
    pub fn get_proper_mapping(&self) -> (r: Vec<(u8, Vec<(Channel, NoteID)>)>)
        ensures
            forall|j1: int, j2: int| 0 <= j1 < j2 < r@.len()
                ==> (#[trigger] r@[j1]).0 != (#[trigger] r@[j2]).0,
            forall|j: int| 0 <= j < r@.len()
                ==> (#[trigger] r@[j]).1@ == key_bindings(flat_bindings(self.keymapping@), r@[j].0),
            forall|j: int| 0 <= j < r@.len()
                ==> code_occurs(flat_bindings(self.keymapping@), (#[trigger] r@[j]).0),
            forall|p: int| 0 <= p < flat_bindings(self.keymapping@).len()
                ==> code_listed(r@, (#[trigger] flat_bindings(self.keymapping@)[p]).0),
    {
        let flat = flatten_keymapping(&self.keymapping);
        let mut r: Vec<(u8, Vec<(Channel, NoteID)>)> = Vec::new();
        let mut p: usize = 0;
        while p < flat.len()
            invariant
                p <= flat@.len(),
                flat@ == flat_bindings(self.keymapping@),
                forall|j1: int, j2: int| 0 <= j1 < j2 < r@.len()
                    ==> (#[trigger] r@[j1]).0 != (#[trigger] r@[j2]).0,
                forall|j: int| 0 <= j < r@.len()
                    ==> (#[trigger] r@[j]).1@ == key_bindings(flat@, r@[j].0),
                forall|j: int| 0 <= j < r@.len()
                    ==> code_occurs(flat@, (#[trigger] r@[j]).0),
                forall|p2: int| 0 <= p2 < p ==> code_listed(r@, (#[trigger] flat@[p2]).0),
            decreases flat@.len() - p,
        {
            let ghost pre = r@;
            let code = flat[p].0;
            if !contains_code(&r, code) {
                let bindings = collect_bindings(&flat, code);
                r.push((code, bindings));
            }
            proof {
                assert(flat@[p as int].0 == code);
                assert(code_occurs(flat@, code));
                assert forall|j: int| 0 <= j < r@.len()
                    implies code_occurs(flat@, (#[trigger] r@[j]).0) by {
                    if j < pre.len() {
                        assert(r@[j] == pre[j]);
                    } else {
                        assert(r@[j].0 == code);
                    }
                }
                assert forall|p2: int| 0 <= p2 < p + 1
                    implies code_listed(r@, (#[trigger] flat@[p2]).0) by {
                    if p2 == p {
                        if code_listed(pre, code) {
                            let j0 = choose|j: int| 0 <= j < pre.len() && (#[trigger] pre[j]).0 == code;
                            assert(r@[j0].0 == code);
                        } else {
                            assert(r@[r@.len() - 1].0 == code);
                        }
                    } else {
                        assert(code_listed(pre, flat@[p2].0));
                        let j0 = choose|j: int| 0 <= j < pre.len()
                            && (#[trigger] pre[j]).0 == flat@[p2].0;
                        assert(r@[j0].0 == flat@[p2].0);
                    }
                }
            }
            p = p + 1;
        }
        r
    }
}

impl Default for AppSettings {
    /// The out-of-the-box settings: ten keys of the home area bound on
    /// channel 0 to the notes 57..=66, a one-octave shift, and the default
    /// note configuration.
    fn default() -> (r: AppSettings)
        ensures
            r.keymapping@.len() == 1,
            r.keymapping@[0].0 == 0,
            r.keymapping@[0].1@ == seq![
                (4u8, 57u8),
                (26u8, 58u8),
                (22u8, 59u8),
                (7u8, 60u8),
                (21u8, 61u8),
                (9u8, 62u8),
                (23u8, 63u8),
                (10u8, 64u8),
                (11u8, 65u8),
                (24u8, 66u8),
            ],
            r.shift_amount == 12,
            r.note_config == (NoteConfig {
                threshold: crate::config::DEFAULT_THRESHOLD,
                velocity_scale: crate::config::DEFAULT_VELOCITY_SCALE,
            }),
    {
        let mut entries: Vec<(u8, NoteID)> = Vec::new();
        entries.push((4, 57));
        entries.push((26, 58));
        entries.push((22, 59));
        entries.push((7, 60));
        entries.push((21, 61));
        entries.push((9, 62));
        entries.push((23, 63));
        entries.push((10, 64));
        entries.push((11, 65));
        entries.push((24, 66));
        proof {
            assert(entries@ =~= seq![
                (4u8, 57u8),
                (26u8, 58u8),
                (22u8, 59u8),
                (7u8, 60u8),
                (21u8, 61u8),
                (9u8, 62u8),
                (23u8, 63u8),
                (10u8, 64u8),
                (11u8, 65u8),
                (24u8, 66u8),
            ]);
        }
        let mut keymapping: Vec<(Channel, Vec<(u8, NoteID)>)> = Vec::new();
        keymapping.push((0, entries));
        AppSettings {
            keymapping,
            shift_amount: default_shift_amount(),
            note_config: Default::default(),
        }
    }
}

/// Minimum interval between two persisted configuration saves, in
/// milliseconds.
pub const SAVE_THROTTLE_MS: u64 = 5000;

/// The save throttle: when the configuration was last persisted, if ever.
#[derive(Debug, Clone, Copy, PartialEq, Eq, Structural)]
pub struct SaveThrottle {
    pub last_save: Option<u64>,
}

/// A save is due when none has happened yet, or the last one is at least
/// the throttle interval in the past.
pub open spec fn save_due(t: SaveThrottle, now_ms: u64) -> bool {
    match t.last_save {
        None => true,
        Some(prev) => elapsed_since(prev, now_ms) >= SAVE_THROTTLE_MS,
    }
}

/// The throttle's step on one configuration update: persist only when due,
/// and remember the time of a persisted save.
pub open spec fn save_step(t: SaveThrottle, now_ms: u64) -> (bool, SaveThrottle) {
    if save_due(t, now_ms) {
        (true, SaveThrottle { last_save: Some(now_ms) })
    } else {
        (false, t)
    }
}

impl SaveThrottle {
    /// A throttle that has never saved.
    pub fn new() -> (r: SaveThrottle)
        ensures
            r.last_save is None,
    {
        SaveThrottle { last_save: None }
    }

    /// One configuration update at `now_ms`: says whether the host must
    /// persist now, and if so counts this moment as the last save.
    pub fn record_update(&mut self, now_ms: u64) -> (r: bool)
        ensures
            r == save_step(*old(self), now_ms).0,
            *final(self) == save_step(*old(self), now_ms).1,
    {
        let due = match self.last_save {
            None => true,
            Some(prev) => {
                let elapsed: u64 = if now_ms >= prev {
                    now_ms - prev
                } else {
                    0
                };
                elapsed >= SAVE_THROTTLE_MS
            }
        };
        if due {
            self.last_save = Some(now_ms);
        }
        due
    }
}

/// LAW: three configuration updates within one throttle window persist at
/// most one save, whatever the throttle's starting state.
pub proof fn lemma_save_throttle_window(t0: SaveThrottle, t1: u64, t2: u64, t3: u64)
    requires
        t1 <= t2 <= t3,
        t3 < t1 + SAVE_THROTTLE_MS,
    ensures
        ({
            let a = save_step(t0, t1);
            let b = save_step(a.1, t2);
            let c = save_step(b.1, t3);
            (if a.0 { 1int } else { 0int }) + (if b.0 { 1int } else { 0int })
                + (if c.0 { 1int } else { 0int }) <= 1
        }),
{
}

} // verus!

