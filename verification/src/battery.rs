//! Battery packs: each pack knows only its own nominal voltage; the duty that
//! delivers a target average voltage is one shared calculation.
use vstd::prelude::*;
use vstd::arithmetic::div_mod::{
    lemma_div_is_ordered, lemma_div_is_ordered_by_denominator, lemma_fundamental_div_mod,
    lemma_mod_pos_bound,
};

verus! {

/// Full scale of a PWM duty: `u16::MAX` is 100 %.
pub const FULL_DUTY: u16 = 65535;

/// The duty, on a `FULL_DUTY` scale, whose average output from a pack of
/// `nominal_mv` is `target_mv`, rounded down and saturated at 100 %.
pub open spec fn duty_for(target_mv: int, nominal_mv: int) -> int {
    let raw = (target_mv * FULL_DUTY) / nominal_mv;
    if raw < FULL_DUTY { raw } else { FULL_DUTY as int }
}

pub trait BatteryProfile {
    /// The pack's nominal voltage in millivolts, as a mathematical value.
    spec fn spec_nominal_mv(&self) -> u32;

    /// nominal pack voltage in millivolts; a pack always has some voltage
    fn nominal_mv(&self) -> (mv: u32)
        ensures
            mv == self.spec_nominal_mv(),
            mv > 0,
    ;

    /// PWM duty (`u16::MAX` = 100 %) that delivers `target_mv` average voltage
    /// from this pack; saturates at 100 % if the pack can't reach `target_mv`
    fn duty_for_target_mv(&self, target_mv: u32) -> (duty: u16)
        ensures
            duty == duty_for(target_mv as int, self.spec_nominal_mv() as int),
    {
        let nominal = self.nominal_mv();
        let scaled: u64 = target_mv as u64 * FULL_DUTY as u64;
        let raw: u64 = scaled / nominal as u64;
        if raw < FULL_DUTY as u64 {
            raw as u16
        } else {
            FULL_DUTY
        }
    }
}

/// A pack reaches 100 % duty exactly when the target is at or above its
/// nominal voltage: below it the pack can deliver the target on its own.
pub proof fn lemma_duty_saturates_exactly(target_mv: u32, nominal_mv: u32)
    requires
        nominal_mv > 0,
    ensures
        duty_for(target_mv as int, nominal_mv as int) == FULL_DUTY
            <==> target_mv >= nominal_mv,
{
    let t = target_mv as int;
    let n = nominal_mv as int;
    let full = FULL_DUTY as int;
    if t >= n {
        assert(n * full <= t * full) by (nonlinear_arith)
            requires n <= t, 0 <= full;
        lemma_div_is_ordered(n * full, t * full, n);
        assert((n * full) / n == full) by (nonlinear_arith)
            requires n > 0;
    } else {
        lemma_fundamental_div_mod(t * full, n);
        lemma_mod_pos_bound(t * full, n);
        let q = (t * full) / n;
        assert(q < full) by (nonlinear_arith)
            requires
                t * full == n * q + (t * full) % n,
                0 <= (t * full) % n,
                t < n,
                0 <= t,
                full > 0,
                n > 0,
        ;
    }
}

/// The duty never decreases as the target voltage rises.
pub proof fn lemma_duty_monotone_in_target(low_mv: u32, high_mv: u32, nominal_mv: u32)
    requires
        nominal_mv > 0,
        low_mv <= high_mv,
    ensures
        duty_for(low_mv as int, nominal_mv as int) <= duty_for(high_mv as int, nominal_mv as int),
{
    let full = FULL_DUTY as int;
    assert(low_mv * full <= high_mv * full) by (nonlinear_arith)
        requires low_mv <= high_mv, 0 <= full;
    lemma_div_is_ordered(low_mv * full, high_mv * full, nominal_mv as int);
}

/// For one target, a pack of higher voltage never needs a larger duty.
pub proof fn lemma_duty_antitone_in_nominal(target_mv: u32, low_mv: u32, high_mv: u32)
    requires
        0 < low_mv <= high_mv,
    ensures
        duty_for(target_mv as int, high_mv as int) <= duty_for(target_mv as int, low_mv as int),
{
    let full = FULL_DUTY as int;
    assert(0 <= target_mv * full) by (nonlinear_arith)
        requires 0 <= target_mv, 0 <= full;
    lemma_div_is_ordered_by_denominator(target_mv * full, low_mv as int, high_mv as int);
}

/// Below saturation the duty delivers the target average voltage rounded
/// down to one duty step: `duty * nominal <= target * FULL < (duty + 1) * nominal`.
pub proof fn lemma_duty_delivers_target(target_mv: u32, nominal_mv: u32)
    requires
        nominal_mv > 0,
        target_mv < nominal_mv,
    ensures
        duty_for(target_mv as int, nominal_mv as int) * nominal_mv
            <= target_mv * FULL_DUTY,
        target_mv * FULL_DUTY
            < (duty_for(target_mv as int, nominal_mv as int) + 1) * nominal_mv,
{
    lemma_duty_saturates_exactly(target_mv, nominal_mv);
    let t = target_mv as int;
    let n = nominal_mv as int;
    let x = t * (FULL_DUTY as int);
    lemma_fundamental_div_mod(x, n);
    lemma_mod_pos_bound(x, n);
    let q = x / n;
    assert(duty_for(t, n) == q);
    assert(q * n <= x && x < (q + 1) * n) by (nonlinear_arith)
        requires x == n * q + x % n, 0 <= x % n < n;
}

/// A zero target always gives a zero duty.
pub proof fn lemma_zero_target_zero_duty(nominal_mv: u32)
    requires
        nominal_mv > 0,
    ensures
        duty_for(0, nominal_mv as int) == 0,
{
}

/// The duty for a target depends on the pack only through its nominal voltage,
/// so two packs of equal voltage are driven identically.
pub proof fn lemma_duty_depends_only_on_nominal<A: BatteryProfile, B: BatteryProfile>(
    a: &A,
    b: &B,
    target_mv: u32,
)
    requires
        a.spec_nominal_mv() == b.spec_nominal_mv(),
    ensures
        duty_for(target_mv as int, a.spec_nominal_mv() as int)
            == duty_for(target_mv as int, b.spec_nominal_mv() as int),
{
}

/// 2S LiPo, ~7.4 V nominal: the pack currently wired into the car.
pub struct TwoCellLipo;

impl BatteryProfile for TwoCellLipo {
    open spec fn spec_nominal_mv(&self) -> u32 {
        7_400
    }

    fn nominal_mv(&self) -> (mv: u32) {
        7_400
    }
}

} // verus!
