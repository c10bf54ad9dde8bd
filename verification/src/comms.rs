//! Single-character drive commands received over the serial link: what each
//! byte does to the shared duty targets and what is written back.
use vstd::prelude::*;
use crate::battery::FULL_DUTY;
use crate::shared::SharedDuties;

verus! {

/// ~1 % of full duty per trim press.
pub const CRUISE_STEP: u16 = 655;

/// How long the link waits, in ms, when no byte is waiting.
pub const IDLE_POLL_MS: u32 = 2;

/// ASCII `'0'`; the digit `d` is the byte `ASCII_ZERO + d`.
pub const ASCII_ZERO: u8 = 48;
/// ASCII carriage return and line feed.
pub const CR: u8 = 13;
pub const LF: u8 = 10;

/// The decimal digits of `n`, most significant first, without leading zeros.
pub open spec fn decimal(n: nat) -> Seq<u8>
    decreases n,
{
    if n < 10 {
        seq![(ASCII_ZERO + n) as u8]
    } else {
        decimal(n / 10).push((ASCII_ZERO + n % 10) as u8)
    }
}

/// The number that a string of decimal digits reads as.
pub open spec fn decimal_value(digits: Seq<u8>) -> int
    decreases digits.len(),
{
    if digits.len() == 0 {
        0
    } else {
        decimal_value(digits.drop_last()) * 10 + (digits.last() - ASCII_ZERO)
    }
}

/// Whether every byte of `s` is an ASCII digit.
pub open spec fn all_digits(s: Seq<u8>) -> bool {
    forall|i: int| 0 <= i < s.len() ==> ASCII_ZERO <= #[trigger] s[i] <= ASCII_ZERO + 9
}

/// The whole percentage (rounded down) that `duty` is of full duty.
pub open spec fn percent(duty: u16) -> nat {
    (duty * 100 / (FULL_DUTY as int)) as nat
}

/// `"left"`
pub open spec fn label_left() -> Seq<u8> {
    seq![108, 101, 102, 116]
}

/// `"right"`
pub open spec fn label_right() -> Seq<u8> {
    seq![114, 105, 103, 104, 116]
}

/// `"<label>: NN%\r\n"`
pub open spec fn pct_line(label: Seq<u8>, duty: u16) -> Seq<u8> {
    label + seq![58, 32] /* ": " */ + decimal(percent(duty)) + seq![37, CR, LF] /* "%\r\n" */
}

/// `"byte: NNN\r\n"`
pub open spec fn unknown_byte_line(byte: u8) -> Seq<u8> {
    seq![98, 121, 116, 101, 58, 32] /* "byte: " */ + decimal(byte as nat) + seq![CR, LF]
}

/// Appends `bytes` to `out`.
fn push_all(out: &mut Vec<u8>, bytes: &[u8])
    ensures
        final(out)@ == old(out)@ + bytes@,
{
    let mut i: usize = 0;
    while i < bytes.len()
        invariant
            i <= bytes@.len(),
            out@ == old(out)@ + bytes@.subrange(0, i as int),
        decreases bytes@.len() - i,
    {
        out.push(bytes[i]);
        i = i + 1;
        assert(bytes@.subrange(0, i as int) == bytes@.subrange(0, i - 1).push(bytes@[i - 1]));
    }
    assert(bytes@.subrange(0, i as int) == bytes@);
}

/// Appends "<label>: NN%\r\n" to `out`, the duty as a whole percentage.
pub fn write_pct(out: &mut Vec<u8>, label: &[u8], duty: u16)
    ensures
        final(out)@ == old(out)@ + pct_line(label@, duty),
{
    let pct: u8 = (duty as u32 * 100 / FULL_DUTY as u32) as u8;
    assert(pct as nat == percent(duty));
    assert(pct <= 100);

    push_all(out, label);
    push_all(out, &[58, 32]); // ": "
    if pct >= 100 {
        push_all(out, &[49, ASCII_ZERO, ASCII_ZERO]); // "100"
        assert(decimal(100) == seq![49, ASCII_ZERO, ASCII_ZERO]) by {
            reveal_with_fuel(decimal, 3);
        }
    } else if pct >= 10 {
        out.push(ASCII_ZERO + pct / 10);
        out.push(ASCII_ZERO + pct % 10);
        assert(decimal(pct as nat) == seq![(ASCII_ZERO + pct / 10) as u8, (ASCII_ZERO + pct % 10) as u8]) by {
            reveal_with_fuel(decimal, 2);
        }
    } else {
        out.push(ASCII_ZERO + pct);
    }
    push_all(out, &[37, CR, LF]); // "%\r\n"
}

/// Appends "byte: NNN\r\n" to `out`: exactly what arrived for an unmapped key.
pub fn write_unknown_byte(out: &mut Vec<u8>, byte: u8)
    ensures
        final(out)@ == old(out)@ + unknown_byte_line(byte),
{
    push_all(out, &[98, 121, 116, 101, 58, 32]); // "byte: "
    let hundreds: u8 = byte / 100;
    let tens: u8 = (byte / 10) % 10;
    let ones: u8 = byte % 10;
    if hundreds > 0 {
        out.push(ASCII_ZERO + hundreds);
    }
    if hundreds > 0 || tens > 0 {
        out.push(ASCII_ZERO + tens);
    }
    out.push(ASCII_ZERO + ones);
    push_all(out, &[CR, LF]);
    proof {
        reveal_with_fuel(decimal, 3);
    }
}


// ---------------------------------------------------------------- commands

/// `'w'`: both wheels at cruise.
pub const KEY_FORWARD: u8 = 119;
/// `'a'`: turn left; the left wheel runs at its turn duty, the right (outside)
/// wheel at its outside-of-turn duty.
pub const KEY_TURN_LEFT: u8 = 97;
/// `'d'`: turn right; the right wheel runs at its turn duty, the left (outside)
/// wheel at its outside-of-turn duty.
pub const KEY_TURN_RIGHT: u8 = 100;
/// `'s'` and `' '`: stop.
pub const KEY_STOP: u8 = 115;
pub const KEY_SPACE: u8 = 32;
/// `'+'`: both cruise duties one step up.
pub const KEY_FASTER: u8 = 43;
/// `'-'` and `'_'`: both cruise duties one step down.
pub const KEY_SLOWER: u8 = 45;
pub const KEY_SLOWER_ALT: u8 = 95;
/// `'1'` / `'2'`: left cruise duty one step down / up.
pub const KEY_LEFT_DOWN: u8 = 49;
pub const KEY_LEFT_UP: u8 = 50;
/// `'3'` / `'4'`: right cruise duty one step down / up.
pub const KEY_RIGHT_DOWN: u8 = 51;
pub const KEY_RIGHT_UP: u8 = 52;

/// One trim step up, saturating at full duty.
pub open spec fn step_up(duty: u16) -> u16 {
    if duty + CRUISE_STEP > FULL_DUTY { FULL_DUTY } else { (duty + CRUISE_STEP) as u16 }
}

/// One trim step down, saturating at zero.
pub open spec fn step_down(duty: u16) -> u16 {
    if duty < CRUISE_STEP { 0 } else { (duty - CRUISE_STEP) as u16 }
}

/// The (left, right) drive duties a drive command asks for, or `None` for a
/// byte that is not a drive command.
pub open spec fn drive_targets(s: SharedDuties, byte: u8) -> Option<(u16, u16)> {
    if byte == KEY_FORWARD {
        Some((s.left_cruise_duty, s.right_cruise_duty))
    } else if byte == KEY_TURN_LEFT {
        Some((s.left_turn_duty, s.right_turn_outside_duty))
    } else if byte == KEY_TURN_RIGHT {
        Some((s.left_turn_outside_duty, s.right_turn_duty))
    } else if byte == KEY_STOP || byte == KEY_SPACE {
        Some((0u16, 0u16))
    } else {
        None
    }
}

/// Whether `byte` is a drive command.
pub open spec fn is_drive_key(byte: u8) -> bool {
    byte == KEY_FORWARD || byte == KEY_TURN_LEFT || byte == KEY_TURN_RIGHT || byte == KEY_STOP
        || byte == KEY_SPACE
}

/// Whether `byte` trims both cruise duties.
pub open spec fn is_trim_both(byte: u8) -> bool {
    byte == KEY_FASTER || byte == KEY_SLOWER || byte == KEY_SLOWER_ALT
}

/// Whether `byte` is one of the recognised commands.
pub open spec fn is_command(byte: u8) -> bool {
    ||| is_drive_key(byte)
    ||| is_trim_both(byte)
    ||| byte == KEY_LEFT_DOWN || byte == KEY_LEFT_UP
    ||| byte == KEY_RIGHT_DOWN || byte == KEY_RIGHT_UP
}

/// The shared targets after `byte` is received in state `s`.
pub open spec fn after_byte(s: SharedDuties, byte: u8) -> SharedDuties {
    match drive_targets(s, byte) {
        Some((left, right)) => SharedDuties { left_duty: left, right_duty: right, ..s },
        None => {
            if byte == KEY_FASTER {
                SharedDuties {
                    left_cruise_duty: step_up(s.left_cruise_duty),
                    right_cruise_duty: step_up(s.right_cruise_duty),
                    ..s
                }
            } else if byte == KEY_SLOWER || byte == KEY_SLOWER_ALT {
                SharedDuties {
                    left_cruise_duty: step_down(s.left_cruise_duty),
                    right_cruise_duty: step_down(s.right_cruise_duty),
                    ..s
                }
            } else if byte == KEY_LEFT_DOWN {
                SharedDuties { left_cruise_duty: step_down(s.left_cruise_duty), ..s }
            } else if byte == KEY_LEFT_UP {
                SharedDuties { left_cruise_duty: step_up(s.left_cruise_duty), ..s }
            } else if byte == KEY_RIGHT_DOWN {
                SharedDuties { right_cruise_duty: step_down(s.right_cruise_duty), ..s }
            } else if byte == KEY_RIGHT_UP {
                SharedDuties { right_cruise_duty: step_up(s.right_cruise_duty), ..s }
            } else {
                s
            }
        },
    }
}

/// What is written back when `byte` is received in state `s`: a drive command
/// is echoed as an acknowledgement, a trim reports the trimmed duties, and any
/// other byte is reported by its decimal value.
pub open spec fn reply_to_byte(s: SharedDuties, byte: u8) -> Seq<u8> {
    let t = after_byte(s, byte);
    if is_drive_key(byte) {
        seq![byte]
    } else if is_trim_both(byte) {
        pct_line(label_left(), t.left_cruise_duty) + pct_line(label_right(), t.right_cruise_duty)
    } else if byte == KEY_LEFT_DOWN || byte == KEY_LEFT_UP {
        pct_line(label_left(), t.left_cruise_duty)
    } else if byte == KEY_RIGHT_DOWN || byte == KEY_RIGHT_UP {
        pct_line(label_right(), t.right_cruise_duty)
    } else {
        unknown_byte_line(byte)
    }
}

fn write_left_pct(out: &mut Vec<u8>, duty: u16)
    ensures
        final(out)@ == old(out)@ + pct_line(label_left(), duty),
{
    let label: [u8; 4] = [108, 101, 102, 116];
    assert(label@ == label_left());
    write_pct(out, &label, duty);
}

fn write_right_pct(out: &mut Vec<u8>, duty: u16)
    ensures
        final(out)@ == old(out)@ + pct_line(label_right(), duty),
{
    let label: [u8; 5] = [114, 105, 103, 104, 116];
    assert(label@ == label_right());
    write_pct(out, &label, duty);
}

/// report both cruise duties
pub fn write_both(out: &mut Vec<u8>, shared: &SharedDuties)
    ensures
        final(out)@ == old(out)@ + pct_line(label_left(), shared.left_cruise_duty)
            + pct_line(label_right(), shared.right_cruise_duty),
{
    write_left_pct(out, shared.left_cruise_duty);
    write_right_pct(out, shared.right_cruise_duty);
}

/// Applies one received byte to the shared duty targets and returns the bytes
/// to write back over the link.
pub fn handle_byte(shared: &mut SharedDuties, byte: u8) -> (reply: Vec<u8>)
    ensures
        *final(shared) == after_byte(*old(shared), byte),
        reply@ == reply_to_byte(*old(shared), byte),
{
    let left_cruise = shared.left_cruise_duty;
    let right_cruise = shared.right_cruise_duty;
    let left_turn = shared.left_turn_duty;
    let right_turn = shared.right_turn_duty;
    let left_outside = shared.left_turn_outside_duty;
    let right_outside = shared.right_turn_outside_duty;
    let mut reply: Vec<u8> = Vec::new();

    let targets: Option<(u16, u16)> = if byte == KEY_FORWARD {
        Some((left_cruise, right_cruise))
    } else if byte == KEY_TURN_LEFT {
        Some((left_turn, right_outside)) // left is the inside wheel
    } else if byte == KEY_TURN_RIGHT {
        Some((left_outside, right_turn)) // right is the inside wheel
    } else if byte == KEY_STOP || byte == KEY_SPACE {
        Some((0, 0))
    } else {
        None
    };
    if let Some((left, right)) = targets {
        shared.left_duty = left;
        shared.right_duty = right;
        reply.push(byte);
        return reply;
    }

    if byte == KEY_FASTER {
        shared.left_cruise_duty = left_cruise.saturating_add(CRUISE_STEP);
        shared.right_cruise_duty = right_cruise.saturating_add(CRUISE_STEP);
        write_both(&mut reply, shared);
    } else if byte == KEY_SLOWER || byte == KEY_SLOWER_ALT {
        shared.left_cruise_duty = left_cruise.saturating_sub(CRUISE_STEP);
        shared.right_cruise_duty = right_cruise.saturating_sub(CRUISE_STEP);
        write_both(&mut reply, shared);
    } else if byte == KEY_LEFT_DOWN {
        shared.left_cruise_duty = left_cruise.saturating_sub(CRUISE_STEP);
        write_left_pct(&mut reply, shared.left_cruise_duty);
    } else if byte == KEY_LEFT_UP {
        shared.left_cruise_duty = left_cruise.saturating_add(CRUISE_STEP);
        write_left_pct(&mut reply, shared.left_cruise_duty);
    } else if byte == KEY_RIGHT_DOWN {
        shared.right_cruise_duty = right_cruise.saturating_sub(CRUISE_STEP);
        write_right_pct(&mut reply, shared.right_cruise_duty);
    } else if byte == KEY_RIGHT_UP {
        shared.right_cruise_duty = right_cruise.saturating_add(CRUISE_STEP);
        write_right_pct(&mut reply, shared.right_cruise_duty);
    } else {
        write_unknown_byte(&mut reply, byte);
    }
    reply
}

// ---------------------------------------------------------------- link loop

/// What the serial link produced on one poll.
#[derive(Clone, Copy)]
pub enum SerialEvent {
    /// A byte arrived.
    Received(u8),
    /// No byte was waiting.
    Idle,
    /// The receiver reported a fault.
    ReceiveFault,
}

/// What the link task does next.
pub enum CommsAction {
    /// Write these bytes back over the link.
    Write(Vec<u8>),
    /// Yield for this many milliseconds, then poll again.
    Sleep(u32),
    /// Poll again at once.
    Continue,
}

/// One turn of the link task: a byte is handled, an idle link yields for
/// `IDLE_POLL_MS`, and a receive fault fails safe by stopping both motors.
pub fn comms_step(shared: &mut SharedDuties, event: SerialEvent) -> (action: CommsAction)
    ensures
        match event {
            SerialEvent::Received(byte) => {
                &&& *final(shared) == after_byte(*old(shared), byte)
                &&& action matches CommsAction::Write(bytes) && bytes@ == reply_to_byte(*old(shared), byte)
            },
            SerialEvent::Idle => {
                &&& *final(shared) == *old(shared)
                &&& action matches CommsAction::Sleep(ms) && ms == IDLE_POLL_MS
            },
            SerialEvent::ReceiveFault => {
                &&& *final(shared) == (SharedDuties { left_duty: 0, right_duty: 0, ..*old(shared) })
                &&& action is Continue
            },
        },
{
    match event {
        SerialEvent::Received(byte) => CommsAction::Write(handle_byte(shared, byte)),
        SerialEvent::Idle => CommsAction::Sleep(IDLE_POLL_MS),
        SerialEvent::ReceiveFault => {
            shared.left_duty = 0;
            shared.right_duty = 0;
            CommsAction::Continue
        },
    }
}

/// What one link event does to the shared targets.
pub open spec fn event_effect(s: SharedDuties, event: SerialEvent) -> SharedDuties {
    match event {
        SerialEvent::Received(byte) => after_byte(s, byte),
        SerialEvent::Idle => s,
        SerialEvent::ReceiveFault => SharedDuties { left_duty: 0, right_duty: 0, ..s },
    }
}

/// The bytes written back for one link event.
pub open spec fn event_reply(s: SharedDuties, event: SerialEvent) -> Seq<u8> {
    match event {
        SerialEvent::Received(byte) => reply_to_byte(s, byte),
        _ => Seq::empty(),
    }
}

/// The shared targets after the link events `events`, taken in order from `s`.
pub open spec fn link_state_after(s: SharedDuties, events: Seq<SerialEvent>) -> SharedDuties
    decreases events.len(),
{
    if events.len() == 0 {
        s
    } else {
        event_effect(link_state_after(s, events.drop_last()), events.last())
    }
}

/// Everything written back over the link for the events `events`, taken in
/// order from `s`.
pub open spec fn link_output(s: SharedDuties, events: Seq<SerialEvent>) -> Seq<u8>
    decreases events.len(),
{
    if events.len() == 0 {
        Seq::empty()
    } else {
        link_output(s, events.drop_last()) + event_reply(
            link_state_after(s, events.drop_last()),
            events.last(),
        )
    }
}

/// Runs the link task over the events `events` in order, one `comms_step` per
/// event, and returns everything it wrote back.
pub fn comms_run(shared: &mut SharedDuties, events: &Vec<SerialEvent>) -> (written: Vec<u8>)
    ensures
        *final(shared) == link_state_after(*old(shared), events@),
        written@ == link_output(*old(shared), events@),
{
    let ghost start = *shared;
    let mut written: Vec<u8> = Vec::new();
    let mut i: usize = 0;
    while i < events.len()
        invariant
            i <= events@.len(),
            *shared == link_state_after(start, events@.take(i as int)),
            written@ == link_output(start, events@.take(i as int)),
        decreases events@.len() - i,
    {
        let event = events[i];
        assert(events@.take(i + 1).drop_last() == events@.take(i as int));
        assert(events@.take(i + 1).last() == event);
        let action = comms_step(shared, event);
        match action {
            CommsAction::Write(bytes) => push_all(&mut written, bytes.as_slice()),
            _ => {},
        }
        i = i + 1;
    }
    assert(events@.take(i as int) == events@);
    written
}

// ---------------------------------------------------------------- laws

/// A stopped car stays stopped, whatever the link delivers, until a drive
/// command arrives.
pub proof fn lemma_stopped_until_drive_command(s: SharedDuties, events: Seq<SerialEvent>)
    requires
        s.left_duty == 0,
        s.right_duty == 0,
        forall|i: int|
            0 <= i < events.len() ==> (#[trigger] events[i] matches SerialEvent::Received(b)
                ==> !is_drive_key(b)),
    ensures
        link_state_after(s, events).left_duty == 0,
        link_state_after(s, events).right_duty == 0,
    decreases events.len(),
{
    if events.len() > 0 {
        let rest = events.drop_last();
        assert forall|i: int|
            0 <= i < rest.len() implies (#[trigger] rest[i] matches SerialEvent::Received(b)
                ==> !is_drive_key(b)) by {
            assert(rest[i] == events[i]);
        }
        lemma_stopped_until_drive_command(s, rest);
        assert(events[events.len() - 1] == events.last());
    }
}

/// A receive fault stops the car, and it stays stopped until a drive command
/// arrives.
pub proof fn lemma_fault_stops_until_drive_command(s: SharedDuties, events: Seq<SerialEvent>)
    requires
        forall|i: int|
            0 <= i < events.len() ==> (#[trigger] events[i] matches SerialEvent::Received(b)
                ==> !is_drive_key(b)),
    ensures
        link_state_after(s, seq![SerialEvent::ReceiveFault] + events).left_duty == 0,
        link_state_after(s, seq![SerialEvent::ReceiveFault] + events).right_duty == 0,
{
    let stopped = SharedDuties { left_duty: 0, right_duty: 0, ..s };
    lemma_link_after_prefix(s, SerialEvent::ReceiveFault, events);
    lemma_stopped_until_drive_command(stopped, events);
}

/// Taking a first event and then the rest is taking the rest from the state
/// after the first.
pub proof fn lemma_link_after_prefix(s: SharedDuties, first: SerialEvent, rest: Seq<SerialEvent>)
    ensures
        link_state_after(s, seq![first] + rest) == link_state_after(event_effect(s, first), rest),
    decreases rest.len(),
{
    let all = seq![first] + rest;
    if rest.len() == 0 {
        assert(all.drop_last() == Seq::<SerialEvent>::empty());
        assert(all.last() == first);
        assert(link_state_after(s, all.drop_last()) == s);
    } else {
        assert(all.drop_last() == seq![first] + rest.drop_last());
        lemma_link_after_prefix(s, first, rest.drop_last());
        assert(all.last() == rest.last());
    }
}

/// `'s'` and `' '` stop both motors and leave every tuned duty as it was.
pub proof fn lemma_stop_halts_both_motors(s: SharedDuties, byte: u8)
    requires
        byte == KEY_STOP || byte == KEY_SPACE,
    ensures
        after_byte(s, byte) == (SharedDuties { left_duty: 0, right_duty: 0, ..s }),
        reply_to_byte(s, byte) == seq![byte],
{
}

/// A drive command only sets the two live drive duties, to tuned values or
/// zero, and is acknowledged by echoing it.
pub proof fn lemma_drive_command_keeps_tuning(s: SharedDuties, byte: u8)
    requires
        is_drive_key(byte),
    ensures
        after_byte(s, byte) == (SharedDuties {
            left_duty: after_byte(s, byte).left_duty,
            right_duty: after_byte(s, byte).right_duty,
            ..s
        }),
        after_byte(s, byte).left_duty == 0 || after_byte(s, byte).left_duty == s.left_cruise_duty
            || after_byte(s, byte).left_duty == s.left_turn_duty
            || after_byte(s, byte).left_duty == s.left_turn_outside_duty,
        after_byte(s, byte).right_duty == 0 || after_byte(s, byte).right_duty == s.right_cruise_duty
            || after_byte(s, byte).right_duty == s.right_turn_duty
            || after_byte(s, byte).right_duty == s.right_turn_outside_duty,
        reply_to_byte(s, byte) == seq![byte],
{
}

/// Any byte that is not a drive command leaves the live drive duties, the turn
/// duties and the outside-wheel duties untouched: trimming never moves the car.
pub proof fn lemma_non_drive_byte_keeps_motion(s: SharedDuties, byte: u8)
    requires
        !is_drive_key(byte),
    ensures
        after_byte(s, byte) == (SharedDuties {
            left_cruise_duty: after_byte(s, byte).left_cruise_duty,
            right_cruise_duty: after_byte(s, byte).right_cruise_duty,
            ..s
        }),
{
}

/// No byte ever changes the outside-wheel duties seeded at boot.
pub proof fn lemma_outside_duties_never_change(s: SharedDuties, byte: u8)
    ensures
        after_byte(s, byte).left_turn_outside_duty == s.left_turn_outside_duty,
        after_byte(s, byte).right_turn_outside_duty == s.right_turn_outside_duty,
{
}

/// An unrecognised byte changes nothing and is reported by its value.
pub proof fn lemma_unknown_byte_is_inert(s: SharedDuties, byte: u8)
    requires
        !is_command(byte),
    ensures
        after_byte(s, byte) == s,
        reply_to_byte(s, byte) == unknown_byte_line(byte),
{
}

/// A step down undoes a step up that did not saturate, and a step up undoes a
/// step down that did not saturate.
pub proof fn lemma_trim_steps_undo(duty: u16)
    ensures
        duty + CRUISE_STEP <= FULL_DUTY ==> step_down(step_up(duty)) == duty,
        duty >= CRUISE_STEP ==> step_up(step_down(duty)) == duty,
        step_up(duty) >= duty,
        step_down(duty) <= duty,
{
}

/// Trimming up and then down (or down and then up) returns every duty to
/// where it was, as long as no step saturated.
pub proof fn lemma_trim_round_trip(s: SharedDuties)
    ensures
        s.left_cruise_duty + CRUISE_STEP <= FULL_DUTY
            ==> after_byte(after_byte(s, KEY_LEFT_UP), KEY_LEFT_DOWN) == s,
        s.left_cruise_duty >= CRUISE_STEP
            ==> after_byte(after_byte(s, KEY_LEFT_DOWN), KEY_LEFT_UP) == s,
        s.right_cruise_duty + CRUISE_STEP <= FULL_DUTY
            ==> after_byte(after_byte(s, KEY_RIGHT_UP), KEY_RIGHT_DOWN) == s,
        s.right_cruise_duty >= CRUISE_STEP
            ==> after_byte(after_byte(s, KEY_RIGHT_DOWN), KEY_RIGHT_UP) == s,
        s.left_cruise_duty + CRUISE_STEP <= FULL_DUTY && s.right_cruise_duty + CRUISE_STEP
            <= FULL_DUTY ==> after_byte(after_byte(s, KEY_FASTER), KEY_SLOWER) == s,
        s.left_cruise_duty >= CRUISE_STEP && s.right_cruise_duty >= CRUISE_STEP
            ==> after_byte(after_byte(s, KEY_SLOWER), KEY_FASTER) == s,
{
}

/// The reported percentage is never above 100, and is 100 exactly at full duty.
pub proof fn lemma_percent_range(duty: u16)
    ensures
        percent(duty) <= 100,
        percent(duty) == 100 <==> duty == FULL_DUTY,
{
}

/// The reported percentage never falls as the duty rises.
pub proof fn lemma_percent_monotone(low: u16, high: u16)
    requires
        low <= high,
    ensures
        percent(low) <= percent(high),
{
    assert(low * 100 <= high * 100);
    vstd::arithmetic::div_mod::lemma_div_is_ordered(low * 100, high * 100, FULL_DUTY as int);
}

/// The decimal text of a number is all digits, has no leading zero, and reads
/// back as that number.
pub proof fn lemma_decimal_round_trip(n: nat)
    ensures
        all_digits(decimal(n)),
        decimal(n).len() >= 1,
        n > 0 ==> decimal(n)[0] != ASCII_ZERO,
        decimal_value(decimal(n)) == n,
    decreases n,
{
    if n >= 10 {
        lemma_decimal_round_trip(n / 10);
        let d = decimal(n / 10);
        let full = d.push((ASCII_ZERO + n % 10) as u8);
        assert(full.drop_last() == d);
        assert(full[0] == d[0]);
        assert(full.last() - ASCII_ZERO == n % 10);
        vstd::arithmetic::div_mod::lemma_fundamental_div_mod(n as int, 10);
        assert(decimal_value(full) == (n / 10) * 10 + n % 10);
        assert(decimal(n) == full);
        assert forall|i: int| 0 <= i < full.len() implies ASCII_ZERO <= #[trigger] full[i] <= ASCII_ZERO + 9 by {
            if i < d.len() {
                assert(full[i] == d[i]);
            }
        }
    } else {
        let one = seq![(ASCII_ZERO + n) as u8];
        assert(one.drop_last() == Seq::<u8>::empty());
        assert(decimal_value(Seq::<u8>::empty()) == 0);
        assert(decimal_value(one) == n);
    }
}

/// The reported percentage is the duty's share of full duty rounded down to a
/// whole percent: `percent * 65535 <= duty * 100 < (percent + 1) * 65535`.
pub proof fn lemma_percent_is_floor(duty: u16)
    ensures
        percent(duty) * (FULL_DUTY as int) <= duty * 100,
        duty * 100 < (percent(duty) + 1) * (FULL_DUTY as int),
{
    let x = duty * 100;
    let f = FULL_DUTY as int;
    vstd::arithmetic::div_mod::lemma_fundamental_div_mod(x, f);
    vstd::arithmetic::div_mod::lemma_mod_pos_bound(x, f);
    let q = x / f;
    assert(0 <= q);
    assert(percent(duty) == q);
    assert(q * f <= x && x < (q + 1) * f) by (nonlinear_arith)
        requires x == f * q + x % f, 0 <= x % f < f;
}

/// A percentage line is the label, `": "`, a run of decimal digits and
/// `"%\r\n"`, and the digits read back as the duty's whole percentage, rounded
/// down.
pub proof fn lemma_pct_line_reads_back(label: Seq<u8>, duty: u16)
    ensures
        ({
            let digits = decimal(percent(duty));
            &&& pct_line(label, duty) == label + seq![58u8, 32u8] + digits + seq![37u8, 13u8, 10u8]
            &&& digits.len() >= 1
            &&& all_digits(digits)
            &&& decimal_value(digits) * (FULL_DUTY as int) <= duty * 100
            &&& duty * 100 < (decimal_value(digits) + 1) * (FULL_DUTY as int)
        }),
{
    lemma_decimal_round_trip(percent(duty));
    lemma_percent_is_floor(duty);
}

/// The report of an unmapped byte is `"byte: "`, a run of decimal digits with
/// no leading zero, and `"\r\n"`, and the digits read back as the byte's value.
pub proof fn lemma_unknown_line_reads_back(byte: u8)
    ensures
        ({
            let digits = decimal(byte as nat);
            &&& unknown_byte_line(byte)
                == seq![98u8, 121u8, 116u8, 101u8, 58u8, 32u8] + digits + seq![13u8, 10u8]
            &&& 1 <= digits.len() <= 3
            &&& all_digits(digits)
            &&& byte > 0 ==> digits[0] != ASCII_ZERO
            &&& decimal_value(digits) == byte
        }),
{
    lemma_decimal_round_trip(byte as nat);
    reveal_with_fuel(decimal, 3);
}

/// The labels of the two report lines are `"left"` and `"right"`.
pub proof fn lemma_labels()
    ensures
        label_left() == seq![108u8, 101u8, 102u8, 116u8],
        label_right() == seq![114u8, 105u8, 103u8, 104u8, 116u8],
{
}

/// Every trim key moves exactly the cruise duties it names, by one step, with
/// saturating arithmetic, and changes nothing else: `'+'` both up, `'-'` and
/// `'_'` both down (the two keys act alike), `'1'`/`'2'` the left wheel
/// down/up, `'3'`/`'4'` the right wheel down/up.
pub proof fn lemma_trim_keys_exact(s: SharedDuties)
    ensures
        ({
            let up_l = if s.left_cruise_duty + CRUISE_STEP <= FULL_DUTY {
                (s.left_cruise_duty + CRUISE_STEP) as u16
            } else {
                FULL_DUTY
            };
            let up_r = if s.right_cruise_duty + CRUISE_STEP <= FULL_DUTY {
                (s.right_cruise_duty + CRUISE_STEP) as u16
            } else {
                FULL_DUTY
            };
            let down_l = if s.left_cruise_duty >= CRUISE_STEP {
                (s.left_cruise_duty - CRUISE_STEP) as u16
            } else {
                0u16
            };
            let down_r = if s.right_cruise_duty >= CRUISE_STEP {
                (s.right_cruise_duty - CRUISE_STEP) as u16
            } else {
                0u16
            };
            &&& after_byte(s, KEY_FASTER)
                == (SharedDuties { left_cruise_duty: up_l, right_cruise_duty: up_r, ..s })
            &&& after_byte(s, KEY_SLOWER)
                == (SharedDuties { left_cruise_duty: down_l, right_cruise_duty: down_r, ..s })
            &&& after_byte(s, KEY_SLOWER_ALT)
                == (SharedDuties { left_cruise_duty: down_l, right_cruise_duty: down_r, ..s })
            &&& after_byte(s, KEY_SLOWER_ALT) == after_byte(s, KEY_SLOWER)
            &&& after_byte(s, KEY_LEFT_DOWN) == (SharedDuties { left_cruise_duty: down_l, ..s })
            &&& after_byte(s, KEY_LEFT_UP) == (SharedDuties { left_cruise_duty: up_l, ..s })
            &&& after_byte(s, KEY_RIGHT_DOWN) == (SharedDuties { right_cruise_duty: down_r, ..s })
            &&& after_byte(s, KEY_RIGHT_UP) == (SharedDuties { right_cruise_duty: up_r, ..s })
        }),
{
}

/// Every trim key reports the new cruise duty of each wheel it trimmed, each on
/// its own labelled line: both keys report the left then the right wheel, and
/// the single-wheel keys report that wheel alone.
pub proof fn lemma_trim_keys_report_each_wheel(s: SharedDuties)
    ensures
        forall|byte: u8|
            byte == KEY_FASTER || byte == KEY_SLOWER || byte == KEY_SLOWER_ALT ==> #[trigger] reply_to_byte(
                s,
                byte,
            ) == pct_line(label_left(), after_byte(s, byte).left_cruise_duty) + pct_line(
                label_right(),
                after_byte(s, byte).right_cruise_duty,
            ),
        reply_to_byte(s, KEY_LEFT_DOWN) == pct_line(label_left(), after_byte(s, KEY_LEFT_DOWN).left_cruise_duty),
        reply_to_byte(s, KEY_LEFT_UP) == pct_line(label_left(), after_byte(s, KEY_LEFT_UP).left_cruise_duty),
        reply_to_byte(s, KEY_RIGHT_DOWN) == pct_line(label_right(), after_byte(s, KEY_RIGHT_DOWN).right_cruise_duty),
        reply_to_byte(s, KEY_RIGHT_UP) == pct_line(label_right(), after_byte(s, KEY_RIGHT_UP).right_cruise_duty),
{
}

/// Each drive key sets exactly the two live duties it names and nothing else,
/// and is echoed: `'w'` both cruise, `'a'` left turn with right outside, `'d'`
/// left outside with right turn, `'s'` and `' '` both zero.
pub proof fn lemma_drive_keys_exact(s: SharedDuties)
    ensures
        after_byte(s, KEY_FORWARD)
            == (SharedDuties { left_duty: s.left_cruise_duty, right_duty: s.right_cruise_duty, ..s }),
        after_byte(s, KEY_TURN_LEFT)
            == (SharedDuties { left_duty: s.left_turn_duty, right_duty: s.right_turn_outside_duty, ..s }),
        after_byte(s, KEY_TURN_RIGHT)
            == (SharedDuties { left_duty: s.left_turn_outside_duty, right_duty: s.right_turn_duty, ..s }),
        after_byte(s, KEY_STOP) == (SharedDuties { left_duty: 0, right_duty: 0, ..s }),
        after_byte(s, KEY_SPACE) == (SharedDuties { left_duty: 0, right_duty: 0, ..s }),
        forall|byte: u8| is_drive_key(byte) ==> #[trigger] reply_to_byte(s, byte) == seq![byte],
{
}

/// One link event: a received byte changes the state as that byte does and
/// writes its reply; an idle poll changes and writes nothing; a receive fault
/// zeroes both live duties and writes nothing.
pub proof fn lemma_single_event(s: SharedDuties, event: SerialEvent)
    ensures
        link_state_after(s, seq![event]) == event_effect(s, event),
        link_output(s, seq![event]) == event_reply(s, event),
        event matches SerialEvent::Received(b) ==> event_effect(s, event) == after_byte(s, b)
            && event_reply(s, event) == reply_to_byte(s, b),
        event is Idle ==> event_effect(s, event) == s && event_reply(s, event) == Seq::<u8>::empty(),
        event is ReceiveFault ==> event_effect(s, event) == (SharedDuties {
            left_duty: 0,
            right_duty: 0,
            ..s
        }) && event_reply(s, event) == Seq::<u8>::empty(),
{
    assert(seq![event].drop_last() == Seq::<SerialEvent>::empty());
    assert(seq![event].last() == event);
    assert(link_state_after(s, Seq::<SerialEvent>::empty()) == s);
    assert(link_output(s, Seq::<SerialEvent>::empty()) == Seq::<u8>::empty());
}

/// One more event appends exactly that event's reply, computed in the state
/// the earlier events left, to everything written so far: no reply is ever
/// dropped, whatever came before it.
pub proof fn lemma_link_push(s: SharedDuties, events: Seq<SerialEvent>, event: SerialEvent)
    ensures
        link_state_after(s, events.push(event)) == event_effect(link_state_after(s, events), event),
        link_output(s, events.push(event))
            == link_output(s, events) + event_reply(link_state_after(s, events), event),
{
    assert(events.push(event).drop_last() == events);
    assert(events.push(event).last() == event);
}

/// Running two batches of events one after the other is running their
/// concatenation: the state carries over, and the output is the first batch's
/// output followed by the second's.
pub proof fn lemma_link_split(s: SharedDuties, first: Seq<SerialEvent>, second: Seq<SerialEvent>)
    ensures
        link_state_after(s, first + second) == link_state_after(link_state_after(s, first), second),
        link_output(s, first + second)
            == link_output(s, first) + link_output(link_state_after(s, first), second),
    decreases second.len(),
{
    let mid = link_state_after(s, first);
    if second.len() == 0 {
        assert(first + second == first);
        assert(link_output(mid, second) == Seq::<u8>::empty());
        assert(link_output(s, first) + Seq::<u8>::empty() == link_output(s, first));
    } else {
        let rest = second.drop_last();
        let e = second.last();
        lemma_link_split(s, first, rest);
        assert(first + second == (first + rest).push(e));
        assert(second == rest.push(e));
        lemma_link_push(s, first + rest, e);
        lemma_link_push(mid, rest, e);
        assert(link_output(s, first + second) == link_output(s, first + rest) + event_reply(
            link_state_after(s, first + rest),
            e,
        ));
        assert(link_output(s, first) + link_output(mid, second) == link_output(s, first) + (
        link_output(mid, rest) + event_reply(link_state_after(mid, rest), e)));
    }
}

} // verus!
