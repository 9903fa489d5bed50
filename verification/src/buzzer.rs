//! Steps of the patterns played on the buzzer pin.

use vstd::prelude::*;

verus! {

/// One step of a buzzer pattern: sound or silence, in milliseconds.
#[derive(Clone, Copy, Debug, PartialEq, Eq, Structural)]
pub enum BuzzerAction {
    Beep { ms: u32 },
    Pause { ms: u32 },
}

} // verus!
