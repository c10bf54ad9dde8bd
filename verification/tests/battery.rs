use thetos_rc_demo::battery::{BatteryProfile, TwoCellLipo, FULL_DUTY};

struct ThreeCellLipo;

impl BatteryProfile for ThreeCellLipo {
    fn spec_nominal_mv(&self) -> u32 {
        11_100
    }

    fn nominal_mv(&self) -> u32 {
        11_100
    }
}

#[test]
fn two_cell_nominal_voltage() {
    assert_eq!(TwoCellLipo.nominal_mv(), 7_400);
}

#[test]
fn duty_for_cruise_and_turn_targets() {
    assert_eq!(TwoCellLipo.duty_for_target_mv(7_000), 61_992);
    assert_eq!(TwoCellLipo.duty_for_target_mv(5_500), 48_708);
}

#[test]
fn duty_rounds_down() {
    // 3700 * 65535 / 7400 = 32767.5
    assert_eq!(TwoCellLipo.duty_for_target_mv(3_700), 32_767);
}

#[test]
fn duty_zero_target() {
    assert_eq!(TwoCellLipo.duty_for_target_mv(0), 0);
}

#[test]
fn duty_saturates_at_and_above_nominal() {
    assert_eq!(TwoCellLipo.duty_for_target_mv(7_400), FULL_DUTY);
    assert_eq!(TwoCellLipo.duty_for_target_mv(7_399), 65_526);
    assert_eq!(TwoCellLipo.duty_for_target_mv(12_000), u16::MAX);
    assert_eq!(TwoCellLipo.duty_for_target_mv(u32::MAX), u16::MAX);
}

#[test]
fn duty_monotone_in_target() {
    let mut last = 0u16;
    for t in (0..=8_000u32).step_by(37) {
        let d = TwoCellLipo.duty_for_target_mv(t);
        assert!(d >= last);
        last = d;
    }
}

#[test]
fn higher_voltage_pack_needs_less_duty() {
    let two = TwoCellLipo.duty_for_target_mv(7_000);
    let three = ThreeCellLipo.duty_for_target_mv(7_000);
    // 7000 * 65535 / 11100 = 41328.3
    assert_eq!(three, 41_328);
    assert!(three <= two);
}

#[test]
fn duty_delivers_target_within_one_step() {
    for t in [1u32, 500, 3_333, 5_500, 7_000, 7_399] {
        let d = TwoCellLipo.duty_for_target_mv(t) as u64;
        let x = t as u64 * 65_535;
        assert!(d * 7_400 <= x);
        assert!(x < (d + 1) * 7_400);
    }
}
