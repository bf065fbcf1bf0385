//! The screens of the application.

use vstd::prelude::*;

verus! {

/// What the application shows.
#[derive(Clone, Copy, Debug, PartialEq, Eq, Structural)]
pub enum State {
    /// Loading the configuration and scanning for devices.
    Initialising,
    /// The main screen with devices and controls.
    Running,
    /// The about screen.
    About,
}

} // verus!
