//! Decisions behind the controls of the interface.

use vstd::prelude::*;

verus! {

/// What a press of the start/stop control does.
#[derive(Clone, Copy, Debug, PartialEq, Eq, Structural)]
pub enum ToggleOutcome {
    /// Nothing: a source or a receiver slot is missing.
    Ignored,
    /// Start the worker.
    Start,
    /// Stop the worker.
    Stop,
}

/// Decides a press of the start/stop control: nothing happens without at
/// least one source and one receiver slot; otherwise a running worker stops
/// and a stopped one starts.
pub fn start_stop_toggle(source_count: usize, receiver_count: usize, running: bool) -> (r:
    ToggleOutcome)
    ensures
        (source_count == 0 || receiver_count == 0) ==> r == ToggleOutcome::Ignored,
        (source_count > 0 && receiver_count > 0 && running) ==> r == ToggleOutcome::Stop,
        (source_count > 0 && receiver_count > 0 && !running) ==> r == ToggleOutcome::Start,
{
    if source_count == 0 || receiver_count == 0 {
        ToggleOutcome::Ignored
    } else if running {
        ToggleOutcome::Stop
    } else {
        ToggleOutcome::Start
    }
}

/// What the interface shows beside a slot.
#[derive(Clone, Copy, Debug, PartialEq, Eq, Structural)]
pub enum SlotStatus {
    /// The worker runs and the slot names a device.
    Online,
    /// The slot names no device.
    Unconfigured,
    /// The slot names a device but the worker is stopped.
    Offline,
}

impl SlotStatus {
    pub fn as_str(&self) -> (r: &'static str)
        ensures
            r == (match *self {
                SlotStatus::Online => "ONLINE",
                SlotStatus::Unconfigured => "UNCONFIGURED",
                SlotStatus::Offline => "OFFLINE",
            }),
    {
        match self {
            SlotStatus::Online => "ONLINE",
            SlotStatus::Unconfigured => "UNCONFIGURED",
            SlotStatus::Offline => "OFFLINE",
        }
    }
}

/// The status of a slot: configured means neither id is zero.
pub fn slot_status(thread_running: bool, vendor_id: u16, product_id: u16) -> (r: SlotStatus)
    ensures
        r == (if vendor_id == 0 || product_id == 0 {
            SlotStatus::Unconfigured
        } else if thread_running {
            SlotStatus::Online
        } else {
            SlotStatus::Offline
        }),
{
    let is_configured = vendor_id != 0 && product_id != 0;
    if thread_running && is_configured {
        SlotStatus::Online
    } else if !is_configured {
        SlotStatus::Unconfigured
    } else {
        SlotStatus::Offline
    }
}

} // verus!
