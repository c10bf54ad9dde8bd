//! Boot-time diagnostic: the LED blinks a failure code in a repeating
//! count-then-pause pattern. It runs before the kernel exists, so timing is a
//! busy loop, not a timer.
use vstd::prelude::*;

verus! {

/// On/off duration of one blink, in busy-loop iterations (approximate, not timed).
pub const BLINK_SPIN: u32 = 400_000;

/// Pause between repeats of the blink count, in busy-loop iterations.
pub const GAP_SPIN: u32 = 1_600_000;

/// Wraps `core::hint::spin_loop`, a processor hint for the body of a busy-wait.
/// It returns nothing and changes no state that this library can observe, so
/// its contract states nothing.
#[verifier::external_body]
fn spin_loop_hint() {
    core::hint::spin_loop();
}

/// Busy-waits for `n` iterations of the spin-loop hint.
pub fn spin(n: u32) {
    let mut i: u32 = 0;
    while i < n
        invariant
            i <= n,
        decreases n - i,
    {
        spin_loop_hint();
        i = i + 1;
    }
}

/// One step of the blink pattern.
#[derive(Clone, Copy, PartialEq, Eq, Structural)]
pub enum BlinkStep {
    /// Drive the LED high (`true`) or low (`false`), then spin `BLINK_SPIN`.
    Led(bool),
    /// Spin `GAP_SPIN` with the LED left low.
    Gap,
}

/// Where the pattern stands: how many blinks of this round are complete, and
/// whether the LED is lit in the current one.
#[derive(Clone, Copy, PartialEq, Eq, Structural)]
pub struct BlinkCursor {
    pub blinks_done: u32,
    pub lit: bool,
}

impl BlinkCursor {
    pub open spec fn start_spec() -> BlinkCursor {
        BlinkCursor { blinks_done: 0, lit: false }
    }

    /// The beginning of a round: nothing blinked yet, LED off.
    pub fn start() -> (c: BlinkCursor)
        ensures
            c == BlinkCursor::start_spec(),
    {
        BlinkCursor { blinks_done: 0, lit: false }
    }
}

/// The next step of a `count`-blink pattern and the cursor after it: each blink
/// is a high step and a low step; after `count` blinks comes the gap, and the
/// round starts again.
pub open spec fn next_blink(count: u32, c: BlinkCursor) -> (BlinkCursor, BlinkStep) {
    if c.blinks_done < count {
        if !c.lit {
            (BlinkCursor { blinks_done: c.blinks_done, lit: true }, BlinkStep::Led(true))
        } else {
            (BlinkCursor { blinks_done: (c.blinks_done + 1) as u32, lit: false }, BlinkStep::Led(false))
        }
    } else {
        (BlinkCursor::start_spec(), BlinkStep::Gap)
    }
}

/// Decides the next step of the failure blink for code `count`.
pub fn fail_blink_step(count: u32, cursor: BlinkCursor) -> (next: (BlinkCursor, BlinkStep))
    ensures
        next == next_blink(count, cursor),
{
    if cursor.blinks_done < count {
        if !cursor.lit {
            (BlinkCursor { blinks_done: cursor.blinks_done, lit: true }, BlinkStep::Led(true))
        } else {
            (BlinkCursor { blinks_done: cursor.blinks_done + 1, lit: false }, BlinkStep::Led(false))
        }
    } else {
        (BlinkCursor::start(), BlinkStep::Gap)
    }
}

/// The cursor after `k` steps from `c`.
pub open spec fn blink_after(count: u32, c: BlinkCursor, k: nat) -> BlinkCursor
    decreases k,
{
    if k == 0 {
        c
    } else {
        next_blink(count, blink_after(count, c, (k - 1) as nat)).0
    }
}

/// The steps taken in `k` steps from `c`.
pub open spec fn blink_run(count: u32, c: BlinkCursor, k: nat) -> Seq<BlinkStep>
    decreases k,
{
    if k == 0 {
        Seq::empty()
    } else {
        blink_run(count, c, (k - 1) as nat).push(next_blink(count, blink_after(count, c, (k - 1) as nat)).1)
    }
}

/// `k` blinks: high then low, `k` times.
pub open spec fn pulses(k: nat) -> Seq<BlinkStep>
    decreases k,
{
    if k == 0 {
        Seq::empty()
    } else {
        pulses((k - 1) as nat) + seq![BlinkStep::Led(true), BlinkStep::Led(false)]
    }
}

proof fn lemma_blink_prefix(count: u32, j: nat)
    requires
        j <= count,
    ensures
        blink_after(count, BlinkCursor::start_spec(), 2 * j)
            == (BlinkCursor { blinks_done: j as u32, lit: false }),
        blink_run(count, BlinkCursor::start_spec(), 2 * j) == pulses(j),
    decreases j,
{
    if j > 0 {
        let s = BlinkCursor::start_spec();
        lemma_blink_prefix(count, (j - 1) as nat);
        let k = (2 * (j - 1)) as nat;
        assert(2 * j == k + 2);
        assert(blink_after(count, s, k + 1) == BlinkCursor { blinks_done: (j - 1) as u32, lit: true });
        assert(blink_run(count, s, k + 1) == blink_run(count, s, k).push(BlinkStep::Led(true)));
        assert(next_blink(count, blink_after(count, s, k + 1)).1 == BlinkStep::Led(false));
        assert(blink_run(count, s, k + 2) == blink_run(count, s, k).push(BlinkStep::Led(true)).push(
            BlinkStep::Led(false),
        ));
        assert(pulses(j) == pulses((j - 1) as nat) + seq![BlinkStep::Led(true), BlinkStep::Led(false)]);
    }
}

/// From the start, a `count`-blink pattern is `count` high/low blinks and then
/// one gap, after which it is back at the start: it repeats forever.
pub proof fn lemma_blink_round(count: u32)
    ensures
        blink_run(count, BlinkCursor::start_spec(), (2 * count + 1) as nat)
            == pulses(count as nat).push(BlinkStep::Gap),
        blink_after(count, BlinkCursor::start_spec(), (2 * count + 1) as nat)
            == BlinkCursor::start_spec(),
{
    lemma_blink_prefix(count, count as nat);
}

} // verus!
