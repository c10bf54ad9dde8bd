use thetos_rc_demo::battery::TwoCellLipo;
use thetos_rc_demo::config::apply_startup_config;
use thetos_rc_demo::motor::{current_motor, ActiveMotor, MotorProfile, RcCarDrivetrain, Wheel};
use thetos_rc_demo::shared::SharedDuties;

#[test]
fn drivetrain_targets() {
    let m = RcCarDrivetrain;
    assert_eq!(m.target_cruise_mv(Wheel::Left), 7_000);
    assert_eq!(m.target_cruise_mv(Wheel::Right), 7_000);
    assert_eq!(m.target_turn_mv(Wheel::Left), 5_500);
    assert_eq!(m.target_turn_mv(Wheel::Right), 5_500);
    assert_eq!(m.target_turn_outside_mv(Wheel::Left), 6_250);
    assert_eq!(m.target_turn_outside_mv(Wheel::Right), 6_250);
}

#[test]
fn active_motor_delegates() {
    let m = current_motor();
    assert!(matches!(m, ActiveMotor::RcCarDrivetrain(_)));
    assert_eq!(m.target_cruise_mv(Wheel::Right), 7_000);
    assert_eq!(m.target_turn_mv(Wheel::Left), 5_500);
    assert_eq!(m.target_turn_outside_mv(Wheel::Right), 6_250);
}

#[test]
fn startup_config_seeds_every_wheel() {
    let mut shared = SharedDuties::new();
    apply_startup_config(&TwoCellLipo, &current_motor(), &mut shared);
    assert_eq!(shared.left_cruise_duty, 61_992);
    assert_eq!(shared.right_cruise_duty, 61_992);
    assert_eq!(shared.left_turn_duty, 48_708);
    assert_eq!(shared.right_turn_duty, 48_708);
    assert_eq!(shared.left_turn_outside_duty, 55_350);
    assert_eq!(shared.right_turn_outside_duty, 55_350);
    // the outside wheel of a turn sits between the inside wheel and cruise
    assert!(shared.left_turn_duty < shared.left_turn_outside_duty);
    assert!(shared.left_turn_outside_duty < shared.left_cruise_duty);
    // boot leaves the car stopped
    assert_eq!(shared.left_duty, 0);
    assert_eq!(shared.right_duty, 0);
}

#[test]
fn startup_config_keeps_live_duties() {
    let mut shared = SharedDuties::new();
    shared.left_duty = 123;
    shared.right_duty = 456;
    apply_startup_config(&TwoCellLipo, &RcCarDrivetrain, &mut shared);
    assert_eq!(shared.left_duty, 123);
    assert_eq!(shared.right_duty, 456);
}

#[test]
fn shared_starts_at_zero() {
    let s = SharedDuties::new();
    assert_eq!(s.left_duty, 0);
    assert_eq!(s.right_duty, 0);
    assert_eq!(s.left_cruise_duty, 0);
    assert_eq!(s.right_cruise_duty, 0);
    assert_eq!(s.left_turn_duty, 0);
    assert_eq!(s.right_turn_duty, 0);
    assert_eq!(s.left_turn_outside_duty, 0);
    assert_eq!(s.right_turn_outside_duty, 0);
}
