//! The scan of the touch matrix: one column is driven at a time, the ADC reads the
//! rows one after the other, and a frame is complete once every column has been driven.
use vstd::prelude::*;
use crate::f0::adc::{Adc, AdcPhase, ADC_ISR_EOC, ADC_ISR_OVR};
use crate::f0::pwm::{
    ccer_applied, column_channel, column_output, lemma_column_bits, lemma_columns_have_own_channels,
    lemma_enable_bits_independent, pwm_timing, CcerUpdate, PwmTiming, Timer,
};
use crate::f0::touch_data::{TouchData, M, N, TOUCH_DATA_LEN, INITIAL_PERIOD, zero_frame};

verus! {

/// What the scan state of a touchpad stands for.
pub struct TouchpadView {
    pub adc: AdcPhase,
    /// PWM period of the drive lines, in timer ticks.
    pub period: u16,
    /// The frame being filled.
    pub frame: Seq<u16>,
    /// The row (ADC channel) being converted.
    pub row: nat,
    /// The column being driven.
    pub col: nat,
}

/// Slot of cell (`row`, `col`) in a frame.
pub open spec fn cell_index(row: int, col: int) -> int {
    1 + N * row + col
}

/// The scan state after the reading of the current cell arrives.
pub open spec fn scan_next(v: TouchpadView, reading: u16) -> TouchpadView {
    let filled = v.frame.update(cell_index(v.row as int, v.col as int), reading);
    let row = ((v.row + 1) % (M as nat)) as nat;
    let col = if row == 0 {
        ((v.col + 1) % (N as nat)) as nat
    } else {
        v.col
    };
    let frame = if row == 0 && col == 0 {
        zero_frame()
    } else {
        filled
    };
    TouchpadView { adc: v.adc, period: v.period, frame, row, col }
}

/// The frame completed by the reading of the current cell, if it is the last cell:
/// the frame being filled with that reading, and the PWM period in slot 0.
pub open spec fn scan_frame(v: TouchpadView, reading: u16) -> Option<Seq<u16>> {
    if (v.row + 1) % (M as nat) == 0 && (v.col + 1) % (N as nat) == 0 {
        Some(v.frame.update(cell_index(v.row as int, v.col as int), reading).update(0, v.period))
    } else {
        None
    }
}

/// A switch of the driven column: `off` stops being driven, `on` starts.
#[derive(Clone, Copy, Debug, PartialEq, Eq, Structural)]
pub struct ColumnChange {
    pub off: usize,
    pub on: usize,
}

/// What follows a reading: the ADC channel to convert next, the column switch if
/// the column is done, and the frame if the matrix is done.
pub struct ScanStep {
    pub channel: u8,
    pub column_change: Option<ColumnChange>,
    pub frame: Option<TouchData>,
}

/// `step` is what follows `reading` in state `v`.
pub open spec fn step_agrees(step: ScanStep, v: TouchpadView, reading: u16) -> bool {
    let next = scan_next(v, reading);
    &&& step.channel == next.row
    &&& step.column_change == (if next.row == 0 {
        Some(ColumnChange { off: v.col as usize, on: next.col as usize })
    } else {
        None
    })
    &&& match step.frame {
        Some(f) => scan_frame(v, reading) == Some(f@),
        None => scan_frame(v, reading) is None,
    }
}

/// What an ADC interrupt calls for.
#[derive(Clone, Copy, Debug, PartialEq, Eq, Structural)]
pub enum InterruptAction {
    /// A conversion has ended: read the data register and hand the value to `next_row`.
    ReadData,
    /// No conversion has ended: leave the data register alone.
    Nothing,
}

/// Driving (`enable`) or no longer driving column `idx`: the CCER update of its channel.
pub open spec fn column_update(idx: int, enable: bool) -> Option<CcerUpdate> {
    match column_channel(idx) {
        Some(ch) => Some(CcerUpdate { timer: ch.timer, ccer_bit: ch.ccer_bit, enable }),
        None => None,
    }
}

/// The CCER registers of the timers, after `u`.
pub open spec fn apply_update(ccers: spec_fn(Timer) -> u32, u: Option<CcerUpdate>) -> spec_fn(
    Timer,
) -> u32 {
    match u {
        Some(u) => |t: Timer|
            if t == u.timer {
                ccer_applied(u, ccers(t))
            } else {
                ccers(t)
            },
        None => ccers,
    }
}

/// Whether column `k` is driven, when the timers' CCER registers hold `ccers`.
pub open spec fn column_driven(ccers: spec_fn(Timer) -> u32, k: int) -> bool {
    match column_channel(k) {
        Some(ch) => ccers(ch.timer) & ch.ccer_bit != 0,
        None => false,
    }
}

/// The scan state of the touchpad.
pub struct Touchpad {
    adc: Adc,
    period: u16,
    in_progress: TouchData,
    current_row: usize,
    current_col: usize,
}

impl View for Touchpad {
    type V = TouchpadView;

    closed spec fn view(&self) -> TouchpadView {
        TouchpadView {
            adc: self.adc@,
            period: self.period,
            frame: self.in_progress@,
            row: self.current_row as nat,
            col: self.current_col as nat,
        }
    }
}

impl Touchpad {
    #[verifier::type_invariant]
    spec fn valid(self) -> bool {
        &&& self.current_row < M
        &&& self.current_col < N
        &&& self.adc@ == AdcPhase::Ready
    }

    /// A touchpad at the first cell of an empty frame, with the initial PWM period.
    pub fn new(adc: Adc) -> (t: Touchpad)
        requires
            adc@ == AdcPhase::Ready,
        ensures
            t@ == (TouchpadView {
                adc: AdcPhase::Ready,
                period: INITIAL_PERIOD,
                frame: zero_frame(),
                row: 0,
                col: 0,
            }),
    {
        Touchpad {
            adc,
            period: INITIAL_PERIOD,
            in_progress: TouchData::new(),
            current_row: 0,
            current_col: 0,
        }
    }

    /// The ADC of the touchpad.
    pub fn adc(&self) -> (adc: &Adc)
        ensures
            adc@ == self@.adc,
            adc@ == AdcPhase::Ready,
    {
        proof {
            use_type_invariant(self);
        }
        &self.adc
    }

    /// PWM period of the drive lines.
    pub fn period(&self) -> (p: u16)
        ensures
            p == self@.period,
    {
        self.period
    }

    /// The row being converted.
    pub fn current_row(&self) -> (r: usize)
        ensures
            r == self@.row,
    {
        self.current_row
    }

    /// The column being driven.
    pub fn current_col(&self) -> (c: usize)
        ensures
            c == self@.col,
    {
        self.current_col
    }

    /// The frame being filled.
    pub fn in_progress(&self) -> (f: &TouchData)
        ensures
            f@ == self@.frame,
    {
        &self.in_progress
    }

    /// Starts driving column `idx`.
    pub fn on(idx: usize) -> (u: Option<CcerUpdate>)
        ensures
            u == column_update(idx as int, true),
    {
        match column_output(idx) {
            Some(ch) => Some(CcerUpdate { timer: ch.timer, ccer_bit: ch.ccer_bit, enable: true }),
            None => None,
        }
    }

    /// Stops driving column `idx`.
    pub fn off(idx: usize) -> (u: Option<CcerUpdate>)
        ensures
            u == column_update(idx as int, false),
    {
        match column_output(idx) {
            Some(ch) => Some(CcerUpdate { timer: ch.timer, ccer_bit: ch.ccer_bit, enable: false }),
            None => None,
        }
    }

    /// Stores the reading of the current cell and moves to the next row; after the
    /// last row, to the next column; after the last column, hands out the frame and
    /// starts an empty one.
    pub fn next_row(&mut self, reading: u16) -> (step: ScanStep)
        ensures
            final(self)@ == scan_next(old(self)@, reading),
            step_agrees(step, old(self)@, reading),
    {
        proof {
            use_type_invariant(&*self);
        }
        let idx = 1 + N * self.current_row + self.current_col;
        self.in_progress.inner[idx] = reading;
        self.current_row = (self.current_row + 1) % M;
        let channel = self.current_row as u8;
        if self.current_row == 0 {
            self.next_column(channel)
        } else {
            ScanStep { channel, column_change: None, frame: None }
        }
    }

    fn next_column(&mut self, channel: u8) -> (step: ScanStep)
        requires
            old(self)@.row == 0,
            channel == 0,
        ensures
            ({
                let v = old(self)@;
                let col = ((v.col + 1) % (N as nat)) as nat;
                &&& final(self)@ == (TouchpadView {
                    adc: v.adc,
                    period: v.period,
                    frame: if col == 0 {
                        zero_frame()
                    } else {
                        v.frame
                    },
                    row: 0,
                    col,
                })
                &&& step.channel == 0
                &&& step.column_change == Some(ColumnChange { off: v.col as usize, on: col as usize })
                &&& match step.frame {
                    Some(f) => col == 0 && f@ == v.frame.update(0, v.period),
                    None => col != 0,
                }
            }),
    {
        proof {
            use_type_invariant(&*self);
        }
        let off = self.current_col;
        self.current_col = (self.current_col + 1) % N;
        let change = ColumnChange { off, on: self.current_col };
        if self.current_col == 0 {
            let mut frame = self.in_progress;
            frame.inner[0] = self.period;
            self.in_progress = TouchData::new();
            ScanStep { channel, column_change: Some(change), frame: Some(frame) }
        } else {
            ScanStep { channel, column_change: Some(change), frame: None }
        }
    }

    /// What an ADC interrupt with status `isr` (no overrun) calls for: when a
    /// conversion has ended, reading its result and going on with `next_row`;
    /// otherwise nothing, and the data register is left unread.
    pub fn adc_interrupt(&self, isr: u32) -> (action: InterruptAction)
        requires
            isr & ADC_ISR_OVR == 0,
        ensures
            action == if isr & ADC_ISR_EOC != 0 {
                InterruptAction::ReadData
            } else {
                InterruptAction::Nothing
            },
    {
        if isr & ADC_ISR_EOC != 0 {
            InterruptAction::ReadData
        } else {
            InterruptAction::Nothing
        }
    }

    /// Sets the PWM period of the drive lines; gives the timing to load into the
    /// timers.
    pub fn set_period(&mut self, period: u16) -> (timing: PwmTiming)
        ensures
            final(self)@ == (TouchpadView { period, ..old(self)@ }),
            timing.auto_reload == period,
            timing.compare == period / 2,
    {
        proof {
            use_type_invariant(&*self);
        }
        self.period = period;
        pwm_timing(period)
    }
}

/// The scan state after `readings` arrive one after the other.
pub open spec fn run_scan(v: TouchpadView, readings: Seq<u16>) -> TouchpadView
    decreases readings.len(),
{
    if readings.len() == 0 {
        v
    } else {
        scan_next(run_scan(v, readings.drop_last()), readings.last())
    }
}

/// The frame handed out on the last of `readings`, if any.
pub open spec fn last_frame(v: TouchpadView, readings: Seq<u16>) -> Option<Seq<u16>> {
    if readings.len() == 0 {
        None
    } else {
        scan_frame(run_scan(v, readings.drop_last()), readings.last())
    }
}

/// Position, in the order of the scan, of the reading that lands in slot `i`
/// (`i >= 1`): columns one after the other, all rows within a column.
pub open spec fn scan_order(i: int) -> int {
    ((i - 1) % (N as int)) * (M as int) + (i - 1) / (N as int)
}

/// Frame `f0` once the first `k` readings of a scan that began at the first cell
/// have landed.
pub open spec fn partial_frame(f0: Seq<u16>, readings: Seq<u16>, k: int) -> Seq<u16> {
    Seq::new(
        TOUCH_DATA_LEN as nat,
        |i: int|
            if 1 <= i && scan_order(i) < k {
                readings[scan_order(i)]
            } else {
                f0[i]
            },
    )
}

/// The frame that a full scan of `readings` gives at PWM period `period`.
pub open spec fn scanned_frame(period: u16, readings: Seq<u16>) -> Seq<u16> {
    Seq::new(
        TOUCH_DATA_LEN as nat,
        |i: int|
            if i == 0 {
                period
            } else {
                readings[scan_order(i)]
            },
    )
}

proof fn lemma_scan_order(r: int, c: int, i: int)
    requires
        0 <= r < M,
        0 <= c < N,
        1 <= i < TOUCH_DATA_LEN,
    ensures
        scan_order(cell_index(r, c)) == c * (M as int) + r,
        scan_order(i) == c * (M as int) + r ==> i == cell_index(r, c),
        0 <= scan_order(i) < M * N,
{
    assert((N * r + c) % (N as int) == c && (N * r + c) / (N as int) == r) by (nonlinear_arith)
        requires
            0 <= r < M,
            0 <= c < N,
    ;
    let q = (i - 1) / (N as int);
    let m = (i - 1) % (N as int);
    assert(i - 1 == N * q + m && 0 <= m < N && 0 <= q < M) by (nonlinear_arith)
        requires
            1 <= i < TOUCH_DATA_LEN,
            q == (i - 1) / (N as int),
            m == (i - 1) % (N as int),
    ;
}

proof fn lemma_scan_prefix(v: TouchpadView, readings: Seq<u16>, k: int)
    requires
        v.row == 0,
        v.col == 0,
        v.frame.len() == TOUCH_DATA_LEN,
        readings.len() == M * N,
        0 <= k < M * N,
    ensures
        run_scan(v, readings.take(k)) == (TouchpadView {
            adc: v.adc,
            period: v.period,
            frame: partial_frame(v.frame, readings, k),
            row: (k % (M as int)) as nat,
            col: (k / (M as int)) as nat,
        }),
        k >= 1 ==> last_frame(v, readings.take(k)) is None,
    decreases k,
{
    if k == 0 {
        assert(readings.take(0).len() == 0);
        assert forall|i: int| 1 <= i < TOUCH_DATA_LEN implies scan_order(i) >= 0 by {
            lemma_scan_order(0, 0, i);
        }
        assert(partial_frame(v.frame, readings, 0) =~= v.frame);
    } else {
        let j = k - 1;
        assert(readings.take(k).drop_last() =~= readings.take(j));
        assert(readings.take(k).last() == readings[j]);
        lemma_scan_prefix(v, readings, j);
        let r = j % (M as int);
        let c = j / (M as int);
        assert(j == M * c + r && 0 <= r < M && 0 <= c < N) by (nonlinear_arith)
            requires
                0 <= j < M * N,
                r == j % (M as int),
                c == j / (M as int),
        ;
        let prev = partial_frame(v.frame, readings, j);
        let filled = prev.update(cell_index(r, c), readings[j]);
        assert forall|i: int| 0 <= i < TOUCH_DATA_LEN implies filled[i] == partial_frame(
            v.frame,
            readings,
            k,
        )[i] by {
            if i >= 1 {
                lemma_scan_order(r, c, i);
            }
        }
        assert(filled =~= partial_frame(v.frame, readings, k));
        if r + 1 < M {
            assert(k % (M as int) == r + 1 && k / (M as int) == c) by (nonlinear_arith)
                requires
                    k == M * c + r + 1,
                    0 <= r + 1 < M,
            ;
        } else {
            assert(k % (M as int) == 0 && k / (M as int) == c + 1) by (nonlinear_arith)
                requires
                    k == M * c + r + 1,
                    r + 1 == M,
            ;
            assert(c + 1 < N);
        }
    }
}

/// A full scan fills every cell once: starting at the first cell, the first
/// `M * N - 1` readings hand out no frame; the last one hands out the frame in
/// which cell (`r`, `c`), in slot `1 + 15 * r + c`, holds reading number `10 * c + r`
/// and slot 0 holds the PWM
/// period; the scan is then back at the first cell of an empty frame.
pub proof fn lemma_full_scan(v: TouchpadView, readings: Seq<u16>)
    requires
        v.row == 0,
        v.col == 0,
        v.frame.len() == TOUCH_DATA_LEN,
        readings.len() == M * N,
    ensures
        forall|k: int| 1 <= k < M * N ==> #[trigger] last_frame(v, readings.take(k)) is None,
        last_frame(v, readings) == Some(scanned_frame(v.period, readings)),
        scanned_frame(v.period, readings)[0] == v.period,
        forall|r: int, c: int|
            0 <= r < 10 && 0 <= c < 15 ==> #[trigger] scanned_frame(v.period, readings)[1 + 15 * r
                + c] == readings[10 * c + r],
        run_scan(v, readings) == (TouchpadView {
            adc: v.adc,
            period: v.period,
            frame: zero_frame(),
            row: 0,
            col: 0,
        }),
{
    assert forall|k: int| 1 <= k < M * N implies #[trigger] last_frame(v, readings.take(k)) is None by {
        lemma_scan_prefix(v, readings, k);
    }
    let last = (M * N - 1) as int;
    lemma_scan_prefix(v, readings, last);
    assert(readings.drop_last() =~= readings.take(last));
    let prev = partial_frame(v.frame, readings, last);
    let filled = prev.update(cell_index(9, 14), readings[last]).update(0, v.period);
    assert forall|i: int| 0 <= i < TOUCH_DATA_LEN implies filled[i] == scanned_frame(
        v.period,
        readings,
    )[i] by {
        if i >= 1 {
            lemma_scan_order(9, 14, i);
        }
    }
    assert(filled =~= scanned_frame(v.period, readings));
    assert forall|r: int, c: int| 0 <= r < 10 && 0 <= c < 15 implies #[trigger] scanned_frame(
        v.period,
        readings,
    )[1 + 15 * r + c] == readings[10 * c + r] by {
        lemma_scan_order(r, c, cell_index(r, c));
    }
}

/// One column is driven at a time: when no column but `c` is driven, switching
/// from `c` to the next column as the scan does (off `c`, then on the next) leaves
/// exactly the next column driven.
pub proof fn lemma_one_column_driven(ccers: spec_fn(Timer) -> u32, c: int)
    requires
        0 <= c < N,
        forall|k: int| 0 <= k < N && k != c ==> !#[trigger] column_driven(ccers, k),
    ensures
        ({
            let next = (c + 1) % (N as int);
            let after = apply_update(
                apply_update(ccers, column_update(c, false)),
                column_update(next, true),
            );
            forall|k: int| 0 <= k < N ==> (#[trigger] column_driven(after, k) <==> k == next)
        }),
{
    let next = (c + 1) % (N as int);
    let mid = apply_update(ccers, column_update(c, false));
    let after = apply_update(mid, column_update(next, true));
    lemma_column_bits(c);
    lemma_column_bits(next);
    let chc = column_channel(c)->Some_0;
    let chn = column_channel(next)->Some_0;
    assert forall|k: int| 0 <= k < N implies (#[trigger] column_driven(after, k) <==> k == next) by {
        lemma_column_bits(k);
        let chk = column_channel(k)->Some_0;
        if k != c {
            lemma_columns_have_own_channels(k, c);
        }
        if k != next {
            lemma_columns_have_own_channels(k, next);
        }
        let t = chk.timer;
        assert(column_update(c, false) == Some(
            CcerUpdate { timer: chc.timer, ccer_bit: chc.ccer_bit, enable: false },
        ));
        assert(column_update(next, true) == Some(
            CcerUpdate { timer: chn.timer, ccer_bit: chn.ccer_bit, enable: true },
        ));
        let m = if t == chc.timer {
            ccers(t) & !chc.ccer_bit
        } else {
            ccers(t)
        };
        assert(mid(t) == m);
        let a = if t == chn.timer {
            m | chn.ccer_bit
        } else {
            m
        };
        assert(after(t) == a);
        lemma_enable_bits_independent(ccers(t), chc.ccer_bit, chk.ccer_bit);
        lemma_enable_bits_independent(m, chn.ccer_bit, chk.ccer_bit);
        assert(column_driven(after, k) == (a & chk.ccer_bit != 0));
        if k != c {
            assert(!column_driven(ccers, k));
        }
    }
}

} // verus!
