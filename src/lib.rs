//! Combines the shift states of several flight-simulation input controllers into
//! one state and republishes it to output controllers.
//!
//! The verified core is free of I/O: report layouts, bit-level merging, format
//! selection, catalog lookups and the worker loop as a state machine that asks
//! its driver to perform each device exchange.

use vstd::prelude::*;

pub mod about;
pub mod bits;
pub mod catalog;
pub mod classify;
pub mod config;
pub mod control;
pub mod device;
pub mod merge;
pub mod report;
pub mod state;
pub mod worker;

pub use crate::config::ConfigData;
pub use crate::device::VpcDevice;
pub use crate::state::State;

verus! {

/// Command-line options.
#[derive(Clone, Copy, Debug)]
pub struct Args {
    /// Accept every device, whatever its firmware.
    pub skip_firmware: bool,
}

} // verus!
