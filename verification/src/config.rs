use vstd::prelude::*;

verus! {

use crate::MAG_ONE;

/// Default trigger threshold: half of a full press.
pub const DEFAULT_THRESHOLD: u16 = 5000;

/// Default velocity sensitivity, in hundredths (5.00).
pub const DEFAULT_VELOCITY_SCALE: u32 = 500;

/// Global, hot-swappable note configuration: the magnitude a key must cross
/// for its notes to trigger, and the sensitivity of the velocity estimate.
///
/// `threshold` is a fixed-point magnitude strictly between 0 and `MAG_ONE`;
/// `velocity_scale` is a positive scale factor in hundredths.
#[derive(Debug, Clone, Copy, PartialEq, Eq, Structural)]
pub struct NoteConfig {
    pub threshold: u16,
    pub velocity_scale: u32,
}

/// Well-formedness of a configuration: the threshold lies strictly inside
/// the magnitude range and the velocity scale is positive.
pub open spec fn note_config_wf(c: NoteConfig) -> bool {
    0 < c.threshold < MAG_ONE && c.velocity_scale > 0
}

impl NoteConfig {
    pub fn new(threshold: u16, velocity_scale: u32) -> (r: NoteConfig)
        requires
            0 < threshold < MAG_ONE,
            velocity_scale > 0,
        ensures
            r.threshold == threshold,
            r.velocity_scale == velocity_scale,
            note_config_wf(r),
    {
        NoteConfig { threshold, velocity_scale }
    }

    pub fn threshold(&self) -> (r: u16)
        ensures
            r == self.threshold,
    {
        self.threshold
    }

    pub fn velocity_scale(&self) -> (r: u32)
        ensures
            r == self.velocity_scale,
    {
        self.velocity_scale
    }
}

impl Default for NoteConfig {
    fn default() -> (r: NoteConfig)
        ensures
            r.threshold == DEFAULT_THRESHOLD,
            r.velocity_scale == DEFAULT_VELOCITY_SCALE,
            note_config_wf(r),
    {
        NoteConfig { threshold: DEFAULT_THRESHOLD, velocity_scale: DEFAULT_VELOCITY_SCALE }
    }
}

} // verus!
