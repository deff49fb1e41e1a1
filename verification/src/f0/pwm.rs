//! The PWM timers that drive the columns of the touch matrix.
use vstd::prelude::*;

verus! {

/// TIMx_CCER: capture/compare 1 output enable.
pub const CCER_CC1E: u32 = 0x0001;
/// TIMx_CCER: capture/compare 1 complementary output enable.
pub const CCER_CC1NE: u32 = 0x0004;
/// TIMx_CCER: capture/compare 2 output enable.
pub const CCER_CC2E: u32 = 0x0010;
/// TIMx_CCER: capture/compare 2 complementary output enable.
pub const CCER_CC2NE: u32 = 0x0040;
/// TIMx_CCER: capture/compare 3 output enable.
pub const CCER_CC3E: u32 = 0x0100;
/// TIMx_CCER: capture/compare 3 complementary output enable.
pub const CCER_CC3NE: u32 = 0x0400;
/// TIMx_CCER: capture/compare 4 output enable.
pub const CCER_CC4E: u32 = 0x1000;

/// A timer of the board.
#[derive(Clone, Copy, Debug, PartialEq, Eq, Structural)]
pub enum Timer {
    Tim1,
    Tim2,
    Tim3,
    Tim16,
    Tim17,
}

/// The output enable bit of a timer channel that drives one column.
#[derive(Clone, Copy, Debug, PartialEq, Eq, Structural)]
pub struct OutputChannel {
    pub timer: Timer,
    /// The bit of TIMx_CCER that enables the output.
    pub ccer_bit: u32,
}

/// Setting (`enable`) or clearing one output enable bit in a timer's CCER.
#[derive(Clone, Copy, Debug, PartialEq, Eq, Structural)]
pub struct CcerUpdate {
    pub timer: Timer,
    pub ccer_bit: u32,
    pub enable: bool,
}

/// The CCER value after `u`, when it held `ccer` before.
pub open spec fn ccer_applied(u: CcerUpdate, ccer: u32) -> u32 {
    if u.enable {
        ccer | u.ccer_bit
    } else {
        ccer & !u.ccer_bit
    }
}

impl CcerUpdate {
    /// The CCER value after the update, when it held `ccer` before.
    pub fn applied_to(&self, ccer: u32) -> (out: u32)
        ensures
            out == ccer_applied(*self, ccer),
    {
        if self.enable {
            ccer | self.ccer_bit
        } else {
            ccer & !self.ccer_bit
        }
    }
}

/// The timer channel wired to column `idx`; none past the last column.
pub open spec fn column_channel(idx: int) -> Option<OutputChannel> {
    let ch = |timer: Timer, ccer_bit: u32| Some(OutputChannel { timer, ccer_bit });
    if idx == 0 {
        ch(Timer::Tim2, CCER_CC4E)
    } else if idx == 1 {
        ch(Timer::Tim2, CCER_CC3E)
    } else if idx == 2 {
        ch(Timer::Tim1, CCER_CC3E)
    } else if idx == 3 {
        ch(Timer::Tim1, CCER_CC2E)
    } else if idx == 4 {
        ch(Timer::Tim1, CCER_CC1E)
    } else if idx == 5 {
        ch(Timer::Tim1, CCER_CC3NE)
    } else if idx == 6 {
        ch(Timer::Tim1, CCER_CC2NE)
    } else if idx == 7 {
        ch(Timer::Tim1, CCER_CC1NE)
    } else if idx == 8 {
        ch(Timer::Tim2, CCER_CC2E)
    } else if idx == 9 {
        ch(Timer::Tim3, CCER_CC1E)
    } else if idx == 10 {
        ch(Timer::Tim3, CCER_CC2E)
    } else if idx == 11 {
        ch(Timer::Tim16, CCER_CC1NE)
    } else if idx == 12 {
        ch(Timer::Tim17, CCER_CC1NE)
    } else if idx == 13 {
        ch(Timer::Tim16, CCER_CC1E)
    } else if idx == 14 {
        ch(Timer::Tim17, CCER_CC1E)
    } else {
        None
    }
}

/// The timer channel wired to column `idx`; `None` past the last column.
pub fn column_output(idx: usize) -> (out: Option<OutputChannel>)
    ensures
        out == column_channel(idx as int),
{
    let (timer, ccer_bit) = if idx == 0 {
        (Timer::Tim2, CCER_CC4E)
    } else if idx == 1 {
        (Timer::Tim2, CCER_CC3E)
    } else if idx == 2 {
        (Timer::Tim1, CCER_CC3E)
    } else if idx == 3 {
        (Timer::Tim1, CCER_CC2E)
    } else if idx == 4 {
        (Timer::Tim1, CCER_CC1E)
    } else if idx == 5 {
        (Timer::Tim1, CCER_CC3NE)
    } else if idx == 6 {
        (Timer::Tim1, CCER_CC2NE)
    } else if idx == 7 {
        (Timer::Tim1, CCER_CC1NE)
    } else if idx == 8 {
        (Timer::Tim2, CCER_CC2E)
    } else if idx == 9 {
        (Timer::Tim3, CCER_CC1E)
    } else if idx == 10 {
        (Timer::Tim3, CCER_CC2E)
    } else if idx == 11 {
        (Timer::Tim16, CCER_CC1NE)
    } else if idx == 12 {
        (Timer::Tim17, CCER_CC1NE)
    } else if idx == 13 {
        (Timer::Tim16, CCER_CC1E)
    } else if idx == 14 {
        (Timer::Tim17, CCER_CC1E)
    } else {
        return None;
    };
    Some(OutputChannel { timer, ccer_bit })
}

/// Every column has its own drive channel.
pub proof fn lemma_columns_have_own_channels(a: int, b: int)
    requires
        0 <= a < 15,
        0 <= b < 15,
        a != b,
    ensures
        column_channel(a) is Some,
        column_channel(b) is Some,
        column_channel(a) != column_channel(b),
{
}

/// Whether `bit` is one of the output enable bits of a CCER.
pub open spec fn is_enable_bit(bit: u32) -> bool {
    ||| bit == CCER_CC1E
    ||| bit == CCER_CC1NE
    ||| bit == CCER_CC2E
    ||| bit == CCER_CC2NE
    ||| bit == CCER_CC3E
    ||| bit == CCER_CC3NE
    ||| bit == CCER_CC4E
}

/// Every column is driven through an output enable bit.
pub proof fn lemma_column_bits(k: int)
    requires
        0 <= k < 15,
    ensures
        column_channel(k) matches Some(ch) && is_enable_bit(ch.ccer_bit),
{
}

/// Setting or clearing one enable bit leaves every other enable bit as it was.
pub proof fn lemma_enable_bits_independent(x: u32, b: u32, e: u32)
    requires
        is_enable_bit(b),
        is_enable_bit(e),
    ensures
        (x | b) & b != 0,
        (x & !b) & b == 0,
        b != e ==> (((x | b) & e != 0) == (x & e != 0)),
        b != e ==> (((x & !b) & e != 0) == (x & e != 0)),
{
    assert(((b == 0x0001u32) || (b == 0x0004u32) || (b == 0x0010u32) || (b == 0x0040u32) || (b
        == 0x0100u32) || (b == 0x0400u32) || (b == 0x1000u32)) && ((e == 0x0001u32) || (e
        == 0x0004u32) || (e == 0x0010u32) || (e == 0x0040u32) || (e == 0x0100u32) || (e
        == 0x0400u32) || (e == 0x1000u32)) ==> {
        &&& (x | b) & b != 0
        &&& (x & !b) & b == 0
        &&& b != e ==> (((x | b) & e != 0) == (x & e != 0))
        &&& b != e ==> (((x & !b) & e != 0) == (x & e != 0))
    }) by (bit_vector);
}

/// A pin of the board that can drive a column of the matrix.
#[derive(Clone, Copy, Debug, PartialEq, Eq, Structural)]
pub enum DrivePin {
    PA8,
    PA9,
    PA10,
    PB3,
    PB4,
    PB5,
    PB6,
    PB7,
    PB8,
    PB9,
    PB10,
    PB11,
    PB13,
    PB14,
    PB15,
}

/// The pin wired to drive line `k` (column `k`) of the matrix.
pub open spec fn column_pin(k: int) -> DrivePin {
    if k == 0 {
        DrivePin::PB11
    } else if k == 1 {
        DrivePin::PB10
    } else if k == 2 {
        DrivePin::PA10
    } else if k == 3 {
        DrivePin::PA9
    } else if k == 4 {
        DrivePin::PA8
    } else if k == 5 {
        DrivePin::PB15
    } else if k == 6 {
        DrivePin::PB14
    } else if k == 7 {
        DrivePin::PB13
    } else if k == 8 {
        DrivePin::PB3
    } else if k == 9 {
        DrivePin::PB4
    } else if k == 10 {
        DrivePin::PB5
    } else if k == 11 {
        DrivePin::PB6
    } else if k == 12 {
        DrivePin::PB7
    } else if k == 13 {
        DrivePin::PB8
    } else {
        DrivePin::PB9
    }
}

/// The timer output that a pin carries in the alternate function the board uses
/// (AF2, AF1 for PB4 and PB5): timer, channel number, and whether it is the
/// complementary output (CHxN) of that channel.
pub open spec fn pin_output(p: DrivePin) -> (Timer, nat, bool) {
    match p {
        DrivePin::PA8 => (Timer::Tim1, 1, false),
        DrivePin::PA9 => (Timer::Tim1, 2, false),
        DrivePin::PA10 => (Timer::Tim1, 3, false),
        DrivePin::PB3 => (Timer::Tim2, 2, false),
        DrivePin::PB4 => (Timer::Tim3, 1, false),
        DrivePin::PB5 => (Timer::Tim3, 2, false),
        DrivePin::PB6 => (Timer::Tim16, 1, true),
        DrivePin::PB7 => (Timer::Tim17, 1, true),
        DrivePin::PB8 => (Timer::Tim16, 1, false),
        DrivePin::PB9 => (Timer::Tim17, 1, false),
        DrivePin::PB10 => (Timer::Tim2, 3, false),
        DrivePin::PB11 => (Timer::Tim2, 4, false),
        DrivePin::PB13 => (Timer::Tim1, 1, true),
        DrivePin::PB14 => (Timer::Tim1, 2, true),
        DrivePin::PB15 => (Timer::Tim1, 3, true),
    }
}

/// The CCER bit that enables output `channel` of a timer: CCxE is bit `4 * (x - 1)`,
/// CCxNE two bits above it.
pub open spec fn enable_bit(channel: nat, complementary: bool) -> u32 {
    1u32 << ((4 * (channel - 1) + if complementary {
        2int
    } else {
        0int
    }) as u32)
}

/// Each column is switched through the output that its own drive pin carries: the
/// channel of column `k` is the enable bit of the timer output on the pin wired to
/// drive line `k`.
pub proof fn lemma_columns_follow_wiring(k: int)
    requires
        0 <= k < 15,
    ensures
        ({
            let (timer, channel, complementary) = pin_output(column_pin(k));
            column_channel(k) == Some(
                OutputChannel { timer, ccer_bit: enable_bit(channel, complementary) },
            )
        }),
{
    assert(1u32 << 0u32 == 0x0001u32 && 1u32 << 2u32 == 0x0004u32 && 1u32 << 4u32 == 0x0010u32
        && 1u32 << 6u32 == 0x0040u32 && 1u32 << 8u32 == 0x0100u32 && 1u32 << 10u32 == 0x0400u32
        && 1u32 << 12u32 == 0x1000u32) by (bit_vector);
}

/// Auto-reload and compare values of a PWM channel.
#[derive(Clone, Copy, Debug, PartialEq, Eq, Structural)]
pub struct PwmTiming {
    /// TIMx_ARR: the period in ticks.
    pub auto_reload: u16,
    /// TIMx_CCR1..4: the ticks during which the output is active.
    pub compare: u16,
}

/// PWM timing for a period of `ticks`: a 50% duty cycle.
pub fn pwm_timing(ticks: u16) -> (t: PwmTiming)
    ensures
        t.auto_reload == ticks,
        t.compare == ticks / 2,
{
    PwmTiming { auto_reload: ticks, compare: ticks / 2 }
}

} // verus!
