//! Power state machine of the display controller.
//!
//! The appliance walks a fixed cycle: `Standby` -> `PoweringOn` ->
//! `DisplayOn` -> `PoweringOff` -> `Standby`. Each setter performs exactly
//! one edge of that cycle and refuses to fire from any other state.

use vstd::prelude::*;

verus! {

/// The four stations of the display power cycle.
#[derive(Debug, Clone, Copy, PartialEq, Eq, Structural)]
pub enum State {
    /// Off state. No 24V power to the display controller.
    Standby,
    /// Display controller powered with 24V power, waiting to click power button to on.
    PoweringOn,
    /// On state. Display powered and power button clicked to on.
    DisplayOn,
    /// Power button clicked to off, waiting to unpower 24V from the display controller.
    PoweringOff,
}

/// A transition was requested from a state it is not valid in.
#[derive(Debug, Clone, Copy, PartialEq, Eq, Structural)]
pub struct InvalidTransition {
    /// The state the machine was actually in when the transition was refused.
    pub current: State,
    /// The state the caller asked to move to.
    pub requested: State,
}

/// Holder of the current power state.
pub struct SharedState {
    state: State,
}

impl SharedState {
    /// A fresh state machine, starting in `Standby`.
    pub fn new_standby() -> (s: Self)
        ensures
            s.state() == State::Standby,
    {
        SharedState { state: State::Standby }
    }

    /// The current state.
    pub fn get(&self) -> (s: State)
        ensures
            s == self.state(),
    {
        self.state
    }

    /// The current state, as seen by contracts.
    pub closed spec fn state(&self) -> State {
        self.state
    }

    /// Moves to `transition_to` if and only if the machine stands in
    /// `valid_from`; otherwise leaves the state alone and reports the refusal.
    pub fn try_transition(&mut self, valid_from: State, transition_to: State) -> (r: Result<
        (),
        InvalidTransition,
    >)
        ensures
            old(self).state() == valid_from ==> r == Ok::<(), InvalidTransition>(())
                && final(self).state() == transition_to,
            old(self).state() != valid_from ==> r == Err::<(), InvalidTransition>(
                InvalidTransition { current: old(self).state(), requested: transition_to },
            ) && final(self).state() == old(self).state(),
    {
        if self.state == valid_from {
            self.state = transition_to;
            Ok(())
        } else {
            Err(InvalidTransition { current: self.state, requested: transition_to })
        }
    }

    /// Edge `PoweringOff` -> `Standby`.
    pub fn set_standby(&mut self) -> (r: Result<(), InvalidTransition>)
        ensures
            old(self).state() == State::PoweringOff ==> r == Ok::<(), InvalidTransition>(())
                && final(self).state() == State::Standby,
            old(self).state() != State::PoweringOff ==> (r matches Err(_)) && final(self).state()
                == old(self).state(),
    {
        self.try_transition(State::PoweringOff, State::Standby)
    }

    /// Edge `Standby` -> `PoweringOn`.
    pub fn set_powering_on(&mut self) -> (r: Result<(), InvalidTransition>)
        ensures
            old(self).state() == State::Standby ==> r == Ok::<(), InvalidTransition>(())
                && final(self).state() == State::PoweringOn,
            old(self).state() != State::Standby ==> (r matches Err(_)) && final(self).state() == old(
                self,
            ).state(),
    {
        self.try_transition(State::Standby, State::PoweringOn)
    }

    /// Edge `PoweringOn` -> `DisplayOn`.
    pub fn set_display_on(&mut self) -> (r: Result<(), InvalidTransition>)
        ensures
            old(self).state() == State::PoweringOn ==> r == Ok::<(), InvalidTransition>(())
                && final(self).state() == State::DisplayOn,
            old(self).state() != State::PoweringOn ==> (r matches Err(_)) && final(self).state()
                == old(self).state(),
    {
        self.try_transition(State::PoweringOn, State::DisplayOn)
    }

    /// Edge `DisplayOn` -> `PoweringOff`.
    pub fn set_powering_off(&mut self) -> (r: Result<(), InvalidTransition>)
        ensures
            old(self).state() == State::DisplayOn ==> r == Ok::<(), InvalidTransition>(())
                && final(self).state() == State::PoweringOff,
            old(self).state() != State::DisplayOn ==> (r matches Err(_)) && final(self).state()
                == old(self).state(),
    {
        self.try_transition(State::DisplayOn, State::PoweringOff)
    }
}

} // verus!
