use vstd::prelude::*;

verus! {

use crate::REFRESH_RATE;

/// Rate at which status snapshots are sent outward, in Hz.
pub const MIDI_UPDATE_RATE: u32 = 30;

/// Ticks between two status snapshots.
pub const STATUS_TICK_DIVISOR: u32 = REFRESH_RATE / MIDI_UPDATE_RATE;

/// How one tick's device read went, as the polling loop classifies it.
#[derive(Debug, Clone, Copy, PartialEq, Eq, Structural)]
pub enum ReadOutcome {
    /// A snapshot was read.
    Success,
    /// The device layer reports that no devices are present.
    NoDevices,
    /// Any other read error: the tick is skipped, nothing else changes.
    Failure,
}

/// A device-presence transition worth telling the outside about.
#[derive(Debug, Clone, Copy, PartialEq, Eq, Structural)]
pub enum ConnectivityChange {
    /// Devices (re)appeared: a connectivity-found event is owed.
    Found,
    /// Devices vanished: a connectivity-lost event is owed.
    Lost,
}

/// The device-presence step: a successful read from an absent state emits
/// `Found` once; a no-devices failure from a present state emits `Lost`
/// once; everything else (repeats, other read errors) emits nothing.
pub open spec fn connectivity_step(has_devices: bool, outcome: ReadOutcome) -> (
    bool,
    Option<ConnectivityChange>,
) {
    match outcome {
        ReadOutcome::Success => if !has_devices {
            (true, Some(ConnectivityChange::Found))
        } else {
            (true, None)
        },
        ReadOutcome::NoDevices => if has_devices {
            (false, Some(ConnectivityChange::Lost))
        } else {
            (false, None)
        },
        ReadOutcome::Failure => (has_devices, None),
    }
}

/// The per-thread state of the polling loop: whether devices were present
/// at the last classified read, and how many ticks have run.
#[derive(Debug, Clone, Copy, PartialEq, Eq, Structural)]
pub struct PollDriver {
    pub has_devices: bool,
    pub iter_count: u32,
}

impl PollDriver {
    /// A driver that saw `initial_device_count` devices at startup.
    pub fn new(initial_device_count: u32) -> (r: PollDriver)
        ensures
            r.has_devices == (initial_device_count > 0),
            r.iter_count == 0,
    {
        PollDriver { has_devices: initial_device_count > 0, iter_count: 0 }
    }

    /// Classifies one tick's read per `connectivity_step` and returns the
    /// connectivity event owed, if any.
    pub fn on_read_outcome(&mut self, outcome: ReadOutcome) -> (r: Option<ConnectivityChange>)
        ensures
            final(self).has_devices == connectivity_step(old(self).has_devices, outcome).0,
            r == connectivity_step(old(self).has_devices, outcome).1,
            final(self).iter_count == old(self).iter_count,
    {
        match outcome {
            ReadOutcome::Success => {
                if !self.has_devices {
                    self.has_devices = true;
                    Some(ConnectivityChange::Found)
                } else {
                    None
                }
            }
            ReadOutcome::NoDevices => {
                if self.has_devices {
                    self.has_devices = false;
                    Some(ConnectivityChange::Lost)
                } else {
                    None
                }
            }
            ReadOutcome::Failure => None,
        }
    }

    /// Counts one tick and says whether this tick owes a status snapshot:
    /// every `STATUS_TICK_DIVISOR`-th tick, starting with the first.  The
    /// counter wraps around at its maximum.
    pub fn status_due(&mut self) -> (r: bool)
        ensures
            r == (old(self).iter_count % STATUS_TICK_DIVISOR == 0),
            final(self).iter_count == (if old(self).iter_count == u32::MAX {
                0u32
            } else {
                (old(self).iter_count + 1) as u32
            }),
            final(self).has_devices == old(self).has_devices,
    {
        let due = self.iter_count % STATUS_TICK_DIVISOR == 0;
        self.iter_count = if self.iter_count == u32::MAX {
            0
        } else {
            self.iter_count + 1
        };
        due
    }
}

/// LAW: connectivity events fire exactly once per transition.  After a
/// read outcome has been absorbed, absorbing the same outcome again emits
/// no event — repeated failures after a loss, like repeated successes
/// after a find, are silent.
pub proof fn lemma_connectivity_idempotent(has_devices: bool, outcome: ReadOutcome)
    ensures
        connectivity_step(connectivity_step(has_devices, outcome).0, outcome).1 is None,
{
}

} // verus!
