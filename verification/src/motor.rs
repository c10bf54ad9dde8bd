//! Motor/drivetrain profiles: the average voltage a motor, gearbox and chassis
//! need on each wheel, independent of which battery supplies it.
use vstd::prelude::*;

verus! {

/// One side of the car; two "matched" motors rarely draw perfectly evenly.
#[derive(Clone, Copy, PartialEq, Eq, Structural)]
pub enum Wheel {
    Left,
    Right,
}

pub trait MotorProfile {
    /// The cruise target of `wheel`, as a mathematical value.
    spec fn spec_target_cruise_mv(&self, wheel: Wheel) -> u32;

    /// The inside-of-a-turn target of `wheel`, as a mathematical value.
    spec fn spec_target_turn_mv(&self, wheel: Wheel) -> u32;

    /// The outside-of-a-turn target of `wheel`, as a mathematical value.
    spec fn spec_target_turn_outside_mv(&self, wheel: Wheel) -> u32;

    /// average voltage (mV) needed to drive this wheel forward without stalling
    fn target_cruise_mv(&self, wheel: Wheel) -> (mv: u32)
        ensures
            mv == self.spec_target_cruise_mv(wheel),
    ;

    /// average voltage (mV) needed on this wheel while it's the inside of a turn
    fn target_turn_mv(&self, wheel: Wheel) -> (mv: u32)
        ensures
            mv == self.spec_target_turn_mv(wheel),
    ;

    /// average voltage (mV) needed on this wheel while it's the outside of a turn
    fn target_turn_outside_mv(&self, wheel: Wheel) -> (mv: u32)
        ensures
            mv == self.spec_target_turn_outside_mv(wheel),
    ;
}

/// The two PMOS-switched brushed DC motors + gearbox + wheels currently in the car.
pub struct RcCarDrivetrain;

impl MotorProfile for RcCarDrivetrain {
    open spec fn spec_target_cruise_mv(&self, wheel: Wheel) -> u32 {
        match wheel {
            Wheel::Left => 7_000,
            Wheel::Right => 7_000,
        }
    }

    open spec fn spec_target_turn_mv(&self, wheel: Wheel) -> u32 {
        match wheel {
            Wheel::Left => 5_500,
            Wheel::Right => 5_500,
        }
    }

    /// The outside wheel of a turn runs deliberately below cruise, midway
    /// between the inside-wheel turn target and the cruise target.
    open spec fn spec_target_turn_outside_mv(&self, wheel: Wheel) -> u32 {
        match wheel {
            Wheel::Left => 6_250,
            Wheel::Right => 6_250,
        }
    }

    fn target_cruise_mv(&self, wheel: Wheel) -> (mv: u32) {
        match wheel {
            Wheel::Left => 7_000,
            Wheel::Right => 7_000,
        }
    }

    fn target_turn_mv(&self, wheel: Wheel) -> (mv: u32) {
        match wheel {
            Wheel::Left => 5_500,
            Wheel::Right => 5_500,
        }
    }

    fn target_turn_outside_mv(&self, wheel: Wheel) -> (mv: u32) {
        match wheel {
            Wheel::Left => 6_250,
            Wheel::Right => 6_250,
        }
    }
}

/// Which drivetrain is in the car; future drivetrains are further variants.
pub enum ActiveMotor {
    RcCarDrivetrain(RcCarDrivetrain),
}

impl MotorProfile for ActiveMotor {
    open spec fn spec_target_cruise_mv(&self, wheel: Wheel) -> u32 {
        match self {
            ActiveMotor::RcCarDrivetrain(m) => m.spec_target_cruise_mv(wheel),
        }
    }

    open spec fn spec_target_turn_mv(&self, wheel: Wheel) -> u32 {
        match self {
            ActiveMotor::RcCarDrivetrain(m) => m.spec_target_turn_mv(wheel),
        }
    }

    open spec fn spec_target_turn_outside_mv(&self, wheel: Wheel) -> u32 {
        match self {
            ActiveMotor::RcCarDrivetrain(m) => m.spec_target_turn_outside_mv(wheel),
        }
    }

    fn target_cruise_mv(&self, wheel: Wheel) -> (mv: u32) {
        match self {
            ActiveMotor::RcCarDrivetrain(m) => m.target_cruise_mv(wheel),
        }
    }

    fn target_turn_mv(&self, wheel: Wheel) -> (mv: u32) {
        match self {
            ActiveMotor::RcCarDrivetrain(m) => m.target_turn_mv(wheel),
        }
    }

    fn target_turn_outside_mv(&self, wheel: Wheel) -> (mv: u32) {
        match self {
            ActiveMotor::RcCarDrivetrain(m) => m.target_turn_outside_mv(wheel),
        }
    }
}

/// The runstate: which drivetrain is currently in the car.
pub fn current_motor() -> (motor: ActiveMotor)
    ensures
        motor matches ActiveMotor::RcCarDrivetrain(_),
{
    ActiveMotor::RcCarDrivetrain(RcCarDrivetrain)
}

/// In the car's drivetrain every wheel's outside-of-turn target lies strictly
/// between its inside-of-turn target and its cruise target.
pub proof fn lemma_drivetrain_outside_below_cruise(wheel: Wheel)
    ensures
        RcCarDrivetrain.spec_target_turn_mv(wheel) < RcCarDrivetrain.spec_target_turn_outside_mv(wheel),
        RcCarDrivetrain.spec_target_turn_outside_mv(wheel) < RcCarDrivetrain.spec_target_cruise_mv(wheel),
{
}

} // verus!
