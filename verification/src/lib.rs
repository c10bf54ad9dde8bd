//! Duty-cycle planning, serial command handling and boot diagnostics for a
//! two-wheel RC car: the decisions of the firmware, with the hardware (PWM,
//! UART, GPIO, scheduler) left to the caller.
pub mod battery;
pub mod motor;
pub mod shared;
pub mod config;
pub mod comms;
pub mod diag;
