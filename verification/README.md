# thetos_rc_demo

Firmware logic of a two-wheel RC car (ST Nucleo-L152RE, ThetOS), verified with Verus.

- `src/` — the verified library: battery packs and the duty that delivers a target
  voltage (`battery`), per-wheel motor targets (`motor`), the shared duty targets
  (`shared`), boot-time seeding (`config`), the serial command protocol (`comms`)
  and the boot-failure blink pattern (`diag`).
- `app/` — the board program: tasks, atomics, PWM, UART and GPIO, built on the
  board support crate, with a small `embedded-alloc` heap for the link replies.
- `tests/` — executable tests of the library.
