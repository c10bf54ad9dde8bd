//! The duty targets shared between the command handler (writer) and the motor
//! driver (reader). A duty of `u16::MAX` is full speed, 0 is stopped.
use vstd::prelude::*;

verus! {

#[derive(Clone, Copy, PartialEq, Eq, Structural)]
pub struct SharedDuties {
    /// Duty the driver currently pushes to the left motor.
    pub left_duty: u16,
    /// Duty the driver currently pushes to the right motor.
    pub right_duty: u16,
    /// Per-wheel cruise duty, seeded at boot and live-tunable.
    pub left_cruise_duty: u16,
    pub right_cruise_duty: u16,
    /// Per-wheel duty while the wheel is the inside of a turn.
    pub left_turn_duty: u16,
    pub right_turn_duty: u16,
    /// Per-wheel duty while the wheel is the outside of a turn.
    pub left_turn_outside_duty: u16,
    pub right_turn_outside_duty: u16,
}

impl SharedDuties {
    /// The state before anything is seeded: every target 0.
    pub open spec fn new_spec() -> SharedDuties {
        SharedDuties {
            left_duty: 0,
            right_duty: 0,
            left_cruise_duty: 0,
            right_cruise_duty: 0,
            left_turn_duty: 0,
            right_turn_duty: 0,
            left_turn_outside_duty: 0,
            right_turn_outside_duty: 0,
        }
    }

    /// Every target starts at 0: stopped, and nothing seeded yet.
    pub fn new() -> (shared: SharedDuties)
        ensures
            shared == SharedDuties::new_spec(),
    {
        SharedDuties {
            left_duty: 0,
            right_duty: 0,
            left_cruise_duty: 0,
            right_cruise_duty: 0,
            left_turn_duty: 0,
            right_turn_duty: 0,
            left_turn_outside_duty: 0,
            right_turn_outside_duty: 0,
        }
    }
}

} // verus!
