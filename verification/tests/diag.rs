use thetos_rc_demo::diag::{fail_blink_step, spin, BlinkCursor, BlinkStep, BLINK_SPIN, GAP_SPIN};

fn round(count: u32) -> Vec<BlinkStep> {
    let mut c = BlinkCursor::start();
    let mut steps = Vec::new();
    for _ in 0..(2 * count + 1) {
        let (next, step) = fail_blink_step(count, c);
        steps.push(step);
        c = next;
    }
    assert!(c == BlinkCursor::start());
    steps
}

#[test]
fn blink_code_three() {
    let steps = round(3);
    let expected = vec![
        BlinkStep::Led(true),
        BlinkStep::Led(false),
        BlinkStep::Led(true),
        BlinkStep::Led(false),
        BlinkStep::Led(true),
        BlinkStep::Led(false),
        BlinkStep::Gap,
    ];
    assert!(steps == expected);
}

#[test]
fn blink_code_zero_is_only_gaps() {
    let (c, step) = fail_blink_step(0, BlinkCursor::start());
    assert!(step == BlinkStep::Gap);
    assert!(c == BlinkCursor::start());
}

#[test]
fn blink_pattern_repeats() {
    let first = round(5);
    let second = round(5);
    assert!(first == second);
    assert_eq!(first.iter().filter(|s| **s == BlinkStep::Led(true)).count(), 5);
}

#[test]
fn blink_timing() {
    assert_eq!(BLINK_SPIN, 400_000);
    assert_eq!(GAP_SPIN, 1_600_000);
}

#[test]
fn spin_returns() {
    spin(0);
    spin(1_000);
}
