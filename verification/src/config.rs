//! Combines a battery and a motor into the runtime duty targets: the one place
//! that wires "what voltage do we want" (motor, per wheel) to "what duty gets
//! that voltage" (battery).
use vstd::prelude::*;
use crate::battery::{duty_for, lemma_duty_monotone_in_target, BatteryProfile};
use crate::motor::{MotorProfile, Wheel};
use crate::comms::{after_byte, KEY_FORWARD, KEY_TURN_LEFT, KEY_TURN_RIGHT};
use crate::shared::SharedDuties;

verus! {

/// `shared` with every per-wheel cruise/turn target seeded from a pack of
/// `nominal_mv` and `motor`; the live drive duties are left as they were.
pub open spec fn seeded<M: MotorProfile>(shared: SharedDuties, nominal_mv: int, motor: M) -> SharedDuties {
    SharedDuties {
        left_cruise_duty: duty_for(motor.spec_target_cruise_mv(Wheel::Left) as int, nominal_mv) as u16,
        right_cruise_duty: duty_for(motor.spec_target_cruise_mv(Wheel::Right) as int, nominal_mv) as u16,
        left_turn_duty: duty_for(motor.spec_target_turn_mv(Wheel::Left) as int, nominal_mv) as u16,
        right_turn_duty: duty_for(motor.spec_target_turn_mv(Wheel::Right) as int, nominal_mv) as u16,
        left_turn_outside_duty:
            duty_for(motor.spec_target_turn_outside_mv(Wheel::Left) as int, nominal_mv) as u16,
        right_turn_outside_duty:
            duty_for(motor.spec_target_turn_outside_mv(Wheel::Right) as int, nominal_mv) as u16,
        ..shared
    }
}

/// seed the runtime-tunable per-wheel duty targets from the given battery + motor;
/// call once at boot, before any task reads them
pub fn apply_startup_config<B: BatteryProfile, M: MotorProfile>(
    battery: &B,
    motor: &M,
    shared: &mut SharedDuties,
)
    ensures
        *final(shared) == seeded(*old(shared), battery.spec_nominal_mv() as int, *motor),
{
    shared.left_cruise_duty = battery.duty_for_target_mv(motor.target_cruise_mv(Wheel::Left));
    shared.right_cruise_duty = battery.duty_for_target_mv(motor.target_cruise_mv(Wheel::Right));
    shared.left_turn_duty = battery.duty_for_target_mv(motor.target_turn_mv(Wheel::Left));
    shared.right_turn_duty = battery.duty_for_target_mv(motor.target_turn_mv(Wheel::Right));
    shared.left_turn_outside_duty =
        battery.duty_for_target_mv(motor.target_turn_outside_mv(Wheel::Left));
    shared.right_turn_outside_duty =
        battery.duty_for_target_mv(motor.target_turn_outside_mv(Wheel::Right));
}

/// Seeding at boot leaves the car as it was: it does not start the motors.
pub proof fn lemma_seeding_keeps_car_still<M: MotorProfile>(shared: SharedDuties, nominal_mv: int, motor: M)
    ensures
        seeded(shared, nominal_mv, motor).left_duty == shared.left_duty,
        seeded(shared, nominal_mv, motor).right_duty == shared.right_duty,
{
}

/// After seeding, the drive commands run each wheel at the duty that delivers
/// that wheel's target voltage from the pack: `'w'` both at cruise; `'a'` the
/// left wheel at its turn target and the right wheel at its outside-of-turn
/// target; `'d'` the right wheel at its turn target and the left wheel at its
/// outside-of-turn target.
pub proof fn lemma_drive_after_seeding<M: MotorProfile>(shared: SharedDuties, nominal_mv: u32, motor: M)
    requires
        nominal_mv > 0,
    ensures
        ({
            let s = seeded(shared, nominal_mv as int, motor);
            let cruise_l = duty_for(motor.spec_target_cruise_mv(Wheel::Left) as int, nominal_mv as int);
            let cruise_r = duty_for(motor.spec_target_cruise_mv(Wheel::Right) as int, nominal_mv as int);
            let turn_l = duty_for(motor.spec_target_turn_mv(Wheel::Left) as int, nominal_mv as int);
            let turn_r = duty_for(motor.spec_target_turn_mv(Wheel::Right) as int, nominal_mv as int);
            let outside_l = duty_for(motor.spec_target_turn_outside_mv(Wheel::Left) as int, nominal_mv as int);
            let outside_r = duty_for(motor.spec_target_turn_outside_mv(Wheel::Right) as int, nominal_mv as int);
            &&& after_byte(s, KEY_FORWARD).left_duty == cruise_l
            &&& after_byte(s, KEY_FORWARD).right_duty == cruise_r
            &&& after_byte(s, KEY_TURN_LEFT).left_duty == turn_l
            &&& after_byte(s, KEY_TURN_LEFT).right_duty == outside_r
            &&& after_byte(s, KEY_TURN_RIGHT).left_duty == outside_l
            &&& after_byte(s, KEY_TURN_RIGHT).right_duty == turn_r
        }),
{
    let n = nominal_mv as int;
    let full = crate::battery::FULL_DUTY as int;
    assert forall|t: u32| 0 <= #[trigger] duty_for(t as int, n) <= full by {
        assert(0 <= t * full) by (nonlinear_arith)
            requires 0 <= t, 0 <= full;
        assert(0 <= (t * full) / n) by (nonlinear_arith)
            requires 0 <= t * full, n > 0;
    }
    assert(0 <= duty_for(motor.spec_target_cruise_mv(Wheel::Left) as int, n) <= full);
    assert(0 <= duty_for(motor.spec_target_cruise_mv(Wheel::Right) as int, n) <= full);
    assert(0 <= duty_for(motor.spec_target_turn_mv(Wheel::Left) as int, n) <= full);
    assert(0 <= duty_for(motor.spec_target_turn_mv(Wheel::Right) as int, n) <= full);
    assert(0 <= duty_for(motor.spec_target_turn_outside_mv(Wheel::Left) as int, n) <= full);
    assert(0 <= duty_for(motor.spec_target_turn_outside_mv(Wheel::Right) as int, n) <= full);
}

/// Seeding keeps the order of a motor's targets: where a wheel's outside-of-turn
/// target is at most its cruise target, so is its seeded outside duty, and the
/// same between its turn and outside-of-turn targets.
pub proof fn lemma_seeding_keeps_target_order<M: MotorProfile>(
    shared: SharedDuties,
    nominal_mv: u32,
    motor: M,
    wheel: Wheel,
)
    requires
        nominal_mv > 0,
    ensures
        ({
            let s = seeded(shared, nominal_mv as int, motor);
            let (cruise, turn, outside) = match wheel {
                Wheel::Left => (s.left_cruise_duty, s.left_turn_duty, s.left_turn_outside_duty),
                Wheel::Right => (s.right_cruise_duty, s.right_turn_duty, s.right_turn_outside_duty),
            };
            &&& motor.spec_target_turn_outside_mv(wheel) <= motor.spec_target_cruise_mv(wheel)
                ==> outside <= cruise
            &&& motor.spec_target_turn_mv(wheel) <= motor.spec_target_turn_outside_mv(wheel)
                ==> turn <= outside
        }),
{
    let n = nominal_mv as int;
    let full = crate::battery::FULL_DUTY as int;
    assert forall|t: u32| 0 <= #[trigger] duty_for(t as int, n) <= full by {
        assert(0 <= t * full) by (nonlinear_arith)
            requires 0 <= t, 0 <= full;
        assert(0 <= (t * full) / n) by (nonlinear_arith)
            requires 0 <= t * full, n > 0;
    }
    let c = motor.spec_target_cruise_mv(wheel);
    let t = motor.spec_target_turn_mv(wheel);
    let o = motor.spec_target_turn_outside_mv(wheel);
    assert(0 <= duty_for(c as int, n) <= full);
    assert(0 <= duty_for(t as int, n) <= full);
    assert(0 <= duty_for(o as int, n) <= full);
    if o <= c {
        lemma_duty_monotone_in_target(o, c, nominal_mv);
    }
    if t <= o {
        lemma_duty_monotone_in_target(t, o, nominal_mv);
    }
}

} // verus!
