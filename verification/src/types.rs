//! Shared message vocabulary of the appliance's control surfaces.

use vstd::prelude::*;

verus! {

/// A two-state switch position.
#[derive(Copy, Clone, Debug, PartialEq, Eq, Structural)]
pub enum OnOff {
    On,
    Off,
}

/// A control request raised by a console, button, or network handler.
#[derive(Copy, Clone, Debug, PartialEq, Eq, Structural)]
pub enum ControlMessage {
    ButtonPower,
    ButtonMenu,
    ButtonEnter,
    ButtonDown,
    ButtonUp,
    DisplayPower(OnOff),
    FanPower(OnOff),
}

} // verus!
