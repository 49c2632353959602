//! The debug overlay's keyboard switches (F3 shows or hides the overlay,
//! F3+M also switches the touch simulator on or off) and which events it
//! passes on to the game.
use vstd::prelude::*;
use crate::window::Key;

verus! {

/// Whether the overlay is shown, and whether the touch simulator runs.
#[derive(Debug, Clone, Copy)]
pub struct OverlaySwitches {
    pub enabled: bool,
    pub touch_simulator: bool,
}

impl OverlaySwitches {
    /// Hidden overlay, no touch simulator.
    pub fn new() -> (r: Self)
        ensures
            !r.enabled,
            !r.touch_simulator,
    {
        OverlaySwitches { enabled: false, touch_simulator: false }
    }

    /// Handles a key press; returns whether the overlay consumed it (else it
    /// goes on to the touch simulator and the game). `f3_held` tells whether
    /// F3 is held down.
    pub fn handle_key_down(&mut self, key: Key, f3_held: bool) -> (consumed: bool)
        ensures
            consumed == is_switch(key, f3_held),
            (final(self).enabled, final(self).touch_simulator) == after_key(
                (old(self).enabled, old(self).touch_simulator),
                key,
                f3_held,
            ),
    {
        if key == Key::F3 {
            self.enabled = !self.enabled;
            true
        } else if key == Key::M && f3_held {
            self.enabled = !self.enabled;
            self.touch_simulator = !self.touch_simulator;
            true
        } else {
            false
        }
    }
}

/// Whether a key press is one of the overlay's switches.
pub open spec fn is_switch(key: Key, f3_held: bool) -> bool {
    key == Key::F3 || (key == Key::M && f3_held)
}

/// The switches after a key press.
pub open spec fn after_key(s: (bool, bool), key: Key, f3_held: bool) -> (bool, bool) {
    if key == Key::F3 {
        (!s.0, s.1)
    } else if key == Key::M && f3_held {
        (!s.0, !s.1)
    } else {
        s
    }
}

/// Each switch undoes itself: pressing F3 twice, or F3+M twice, leaves the
/// overlay and the touch simulator as they were.
pub proof fn law_switch_twice_restores(s: (bool, bool), key: Key, f3_held: bool)
    ensures
        after_key(after_key(s, key, f3_held), key, f3_held) == s,
{
}

/// The events the game gets for one event that reached the overlay: none
/// when the overlay consumed it as a switch; otherwise the touch events the
/// touch simulator made of it (`simulated`, when the simulator runs and made
/// some), in order, and then the event itself.
pub fn events_for_game<E>(consumed: bool, simulated: Option<Vec<E>>, event: E) -> (r: Vec<E>)
    ensures
        consumed ==> r@ == Seq::<E>::empty(),
        !consumed ==> r@ == match simulated {
            Some(v) => v@,
            None => Seq::<E>::empty(),
        }.push(event),
{
    if consumed {
        return Vec::new();
    }
    let mut out = match simulated {
        Some(v) => v,
        None => Vec::new(),
    };
    out.push(event);
    out
}

} // verus!
