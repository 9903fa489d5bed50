//! Messages for the task that drives the output pins.

use vstd::prelude::*;

verus! {

/// A two-state switch position.
#[derive(Copy, Clone, Debug, PartialEq, Eq, Structural)]
pub enum OnOff {
    On,
    Off,
}

/// One action for the pin-control task: trigger a controller button or
/// switch a power rail.
#[derive(Copy, Clone, Debug, PartialEq, Eq, Structural)]
pub enum PinControlMessage {
    // Note: doubles as 'Enter'
    ButtonPower,
    // Note: mislabeled as 'Enter' in controller
    ButtonMenu,
    ButtonBack,
    ButtonDown,
    ButtonUp,
    DisplayPower(OnOff),
    FanPower(OnOff),
}

} // verus!
