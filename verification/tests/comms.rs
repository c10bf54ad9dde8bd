use thetos_rc_demo::battery::TwoCellLipo;
use thetos_rc_demo::comms::{
    comms_run, comms_step, handle_byte, write_both, write_pct, write_unknown_byte, CommsAction, SerialEvent,
    CRUISE_STEP, IDLE_POLL_MS,
};
use thetos_rc_demo::config::apply_startup_config;
use thetos_rc_demo::motor::RcCarDrivetrain;
use thetos_rc_demo::shared::SharedDuties;

fn booted() -> SharedDuties {
    let mut s = SharedDuties::new();
    apply_startup_config(&TwoCellLipo, &RcCarDrivetrain, &mut s);
    s
}

fn pct(label: &[u8], duty: u16) -> Vec<u8> {
    let mut out = Vec::new();
    write_pct(&mut out, label, duty);
    out
}

#[test]
fn step_is_one_percent() {
    assert_eq!(CRUISE_STEP, u16::MAX / 100);
}

#[test]
fn forward_uses_both_cruise_duties() {
    let mut s = booted();
    let reply = handle_byte(&mut s, b'w');
    assert_eq!(reply, b"w".to_vec());
    assert_eq!((s.left_duty, s.right_duty), (61_992, 61_992));
}

#[test]
fn turns_slow_the_inside_wheel() {
    let mut s = booted();
    assert_eq!(handle_byte(&mut s, b'a'), b"a".to_vec());
    assert_eq!((s.left_duty, s.right_duty), (48_708, 55_350));
    assert_eq!(handle_byte(&mut s, b'd'), b"d".to_vec());
    assert_eq!((s.left_duty, s.right_duty), (55_350, 48_708));
}

#[test]
fn turns_use_the_outside_wheel_duty() {
    let mut s = SharedDuties::new();
    s.left_cruise_duty = 60_000;
    s.right_cruise_duty = 60_001;
    s.left_turn_duty = 40_000;
    s.right_turn_duty = 40_001;
    s.left_turn_outside_duty = 50_000;
    s.right_turn_outside_duty = 50_001;
    handle_byte(&mut s, b'a');
    assert_eq!((s.left_duty, s.right_duty), (40_000, 50_001));
    handle_byte(&mut s, b'd');
    assert_eq!((s.left_duty, s.right_duty), (50_000, 40_001));
}

#[test]
fn cruise_trim_leaves_the_outside_wheel_duty() {
    let mut s = booted();
    handle_byte(&mut s, b'+');
    assert_eq!(s.right_cruise_duty, 62_647);
    handle_byte(&mut s, b'a');
    assert_eq!((s.left_duty, s.right_duty), (48_708, 55_350));
}

#[test]
fn stop_and_space_stop() {
    let mut s = booted();
    handle_byte(&mut s, b'w');
    assert_eq!(handle_byte(&mut s, b's'), b"s".to_vec());
    assert_eq!((s.left_duty, s.right_duty), (0, 0));
    handle_byte(&mut s, b'w');
    assert_eq!(handle_byte(&mut s, b' '), b" ".to_vec());
    assert_eq!((s.left_duty, s.right_duty), (0, 0));
    assert_eq!(s.left_cruise_duty, 61_992);
}

#[test]
fn plus_trims_both_and_reports() {
    let mut s = booted();
    let reply = handle_byte(&mut s, b'+');
    assert_eq!(s.left_cruise_duty, 62_647);
    assert_eq!(s.right_cruise_duty, 62_647);
    assert_eq!(reply, b"left: 95%\r\nright: 95%\r\n".to_vec());
    // the live duties are untouched until the next drive command
    assert_eq!((s.left_duty, s.right_duty), (0, 0));
}

#[test]
fn minus_and_underscore_trim_down() {
    let mut s = booted();
    let reply = handle_byte(&mut s, b'-');
    assert_eq!(s.left_cruise_duty, 61_337);
    assert_eq!(s.right_cruise_duty, 61_337);
    assert_eq!(reply, b"left: 93%\r\nright: 93%\r\n".to_vec());
    handle_byte(&mut s, b'_');
    assert_eq!(s.left_cruise_duty, 60_682);
}

#[test]
fn single_wheel_trims() {
    let mut s = booted();
    assert_eq!(handle_byte(&mut s, b'1'), b"left: 93%\r\n".to_vec());
    assert_eq!(s.left_cruise_duty, 61_337);
    assert_eq!(s.right_cruise_duty, 61_992);
    assert_eq!(handle_byte(&mut s, b'2'), b"left: 94%\r\n".to_vec());
    assert_eq!(s.left_cruise_duty, 61_992);
    assert_eq!(handle_byte(&mut s, b'3'), b"right: 93%\r\n".to_vec());
    assert_eq!(s.right_cruise_duty, 61_337);
    assert_eq!(handle_byte(&mut s, b'4'), b"right: 94%\r\n".to_vec());
    assert_eq!(s.right_cruise_duty, 61_992);
}

#[test]
fn trims_saturate() {
    let mut s = SharedDuties::new();
    s.left_cruise_duty = 65_000;
    s.right_cruise_duty = 100;
    assert_eq!(handle_byte(&mut s, b'2'), b"left: 100%\r\n".to_vec());
    assert_eq!(s.left_cruise_duty, u16::MAX);
    assert_eq!(handle_byte(&mut s, b'3'), b"right: 0%\r\n".to_vec());
    assert_eq!(s.right_cruise_duty, 0);
}

#[test]
fn trim_round_trip_restores() {
    let mut s = booted();
    let before = s;
    handle_byte(&mut s, b'+');
    handle_byte(&mut s, b'-');
    assert!(s == before);
    handle_byte(&mut s, b'4');
    handle_byte(&mut s, b'3');
    assert!(s == before);
}

#[test]
fn unknown_bytes_are_reported_and_ignored() {
    let mut s = booted();
    let before = s;
    assert_eq!(handle_byte(&mut s, b'x'), b"byte: 120\r\n".to_vec());
    assert_eq!(handle_byte(&mut s, 7), b"byte: 7\r\n".to_vec());
    assert_eq!(handle_byte(&mut s, 0), b"byte: 0\r\n".to_vec());
    assert_eq!(handle_byte(&mut s, b'5'), b"byte: 53\r\n".to_vec());
    assert_eq!(handle_byte(&mut s, 200), b"byte: 200\r\n".to_vec());
    assert_eq!(handle_byte(&mut s, 255), b"byte: 255\r\n".to_vec());
    assert_eq!(handle_byte(&mut s, b'\r'), b"byte: 13\r\n".to_vec());
    assert!(s == before);
}

#[test]
fn unknown_byte_lines() {
    let mut out = b"x".to_vec();
    write_unknown_byte(&mut out, 105);
    assert_eq!(out, b"xbyte: 105\r\n".to_vec());
}

#[test]
fn percent_lines() {
    assert_eq!(pct(b"left", 0), b"left: 0%\r\n".to_vec());
    assert_eq!(pct(b"left", 3_300), b"left: 5%\r\n".to_vec());
    assert_eq!(pct(b"right", 6_553), b"right: 9%\r\n".to_vec());
    assert_eq!(pct(b"right", 6_554), b"right: 10%\r\n".to_vec());
    assert_eq!(pct(b"left", 65_534), b"left: 99%\r\n".to_vec());
    assert_eq!(pct(b"left", 65_535), b"left: 100%\r\n".to_vec());
    assert_eq!(pct(b"", 32_768), b": 50%\r\n".to_vec());
}

#[test]
fn both_lines() {
    let mut s = SharedDuties::new();
    s.left_cruise_duty = 65_535;
    s.right_cruise_duty = 655;
    let mut out = Vec::new();
    write_both(&mut out, &s);
    assert_eq!(out, b"left: 100%\r\nright: 0%\r\n".to_vec());
}

#[test]
fn step_handles_events() {
    let mut s = booted();
    match comms_step(&mut s, SerialEvent::Received(b'w')) {
        CommsAction::Write(bytes) => assert_eq!(bytes, b"w".to_vec()),
        _ => panic!("expected a write"),
    }
    assert_eq!(s.left_duty, 61_992);
    let before = s;
    match comms_step(&mut s, SerialEvent::Idle) {
        CommsAction::Sleep(ms) => assert_eq!(ms, IDLE_POLL_MS),
        _ => panic!("expected a sleep"),
    }
    assert!(s == before);
    assert!(matches!(comms_step(&mut s, SerialEvent::ReceiveFault), CommsAction::Continue));
    assert_eq!((s.left_duty, s.right_duty), (0, 0));
    assert_eq!(s.left_cruise_duty, 61_992);
    assert_eq!(IDLE_POLL_MS, 2);
}

#[test]
fn run_applies_events_in_order() {
    let mut s = booted();
    let events = vec![
        SerialEvent::Received(b'w'),
        SerialEvent::Idle,
        SerialEvent::Received(b'+'),
        SerialEvent::ReceiveFault,
        SerialEvent::Received(b'x'),
    ];
    let written = comms_run(&mut s, &events);
    assert_eq!(written, b"wleft: 95%\r\nright: 95%\r\nbyte: 120\r\n".to_vec());
    assert_eq!((s.left_duty, s.right_duty), (0, 0));
    assert_eq!(s.left_cruise_duty, 62_647);
}

#[test]
fn run_of_nothing_changes_nothing() {
    let mut s = booted();
    let before = s;
    let written = comms_run(&mut s, &Vec::new());
    assert!(written.is_empty());
    assert!(s == before);
}

#[test]
fn fault_keeps_car_stopped_until_drive() {
    let mut s = booted();
    let events = vec![
        SerialEvent::Received(b'w'),
        SerialEvent::ReceiveFault,
        SerialEvent::Received(b'2'),
        SerialEvent::Idle,
        SerialEvent::Received(b'q'),
    ];
    comms_run(&mut s, &events);
    assert_eq!((s.left_duty, s.right_duty), (0, 0));
    comms_run(&mut s, &vec![SerialEvent::Received(b'w')]);
    assert_eq!((s.left_duty, s.right_duty), (62_647, 61_992));
}
