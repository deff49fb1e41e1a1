use touchtron::f0::adc::Adc;
use touchtron::f0::pwm::{column_output, pwm_timing, CcerUpdate, OutputChannel, Timer};
use touchtron::f0::touch_data::{M, N};
use touchtron::f0::touchpad::{ColumnChange, InterruptAction, Touchpad};

fn touchpad() -> Touchpad {
    let mut adc = Adc::new();
    while adc.step(0).is_some() {}
    Touchpad::new(adc)
}

#[test]
fn new_touchpad_starts_at_first_cell() {
    let t = touchpad();
    assert_eq!(t.current_row(), 0);
    assert_eq!(t.current_col(), 0);
    assert_eq!(t.period(), 4);
    assert!(t.adc().is_ready());
}

#[test]
fn rows_advance_then_columns() {
    let mut t = touchpad();
    let step = t.next_row(111);
    assert_eq!(step.channel, 1);
    assert_eq!(step.column_change, None);
    assert!(step.frame.is_none());
    assert_eq!(t.in_progress().inner[1], 111);
    for _ in 1..M - 1 {
        t.next_row(0);
    }
    assert_eq!(t.current_row(), M - 1);
    let step = t.next_row(222);
    assert_eq!(step.channel, 0);
    assert_eq!(step.column_change, Some(ColumnChange { off: 0, on: 1 }));
    assert!(step.frame.is_none());
    assert_eq!(t.current_col(), 1);
    assert_eq!(t.in_progress().inner[1 + N * (M - 1)], 222);
}

#[test]
fn full_scan_hands_out_one_frame() {
    let mut t = touchpad();
    let mut frames = Vec::new();
    for k in 0..(M * N) {
        let step = t.next_row(k as u16 + 1);
        if let Some(f) = step.frame {
            frames.push((k, f, step.column_change));
        }
    }
    assert_eq!(frames.len(), 1);
    let (k, frame, change) = &frames[0];
    assert_eq!(*k, M * N - 1);
    assert_eq!(*change, Some(ColumnChange { off: N - 1, on: 0 }));
    assert_eq!(frame.inner[0], 4);
    for c in 0..N {
        for r in 0..M {
            assert_eq!(frame.inner[1 + N * r + c], (c * M + r) as u16 + 1);
        }
    }
    assert_eq!(t.current_row(), 0);
    assert_eq!(t.current_col(), 0);
    assert!(t.in_progress().inner.iter().all(|&v| v == 0));
}

#[test]
fn interrupt_without_conversion_does_nothing() {
    let t = touchpad();
    assert_eq!(t.adc_interrupt(0x1), InterruptAction::Nothing);
    assert_eq!(t.adc_interrupt(0x0), InterruptAction::Nothing);
}

#[test]
fn interrupt_after_conversion_reads_data() {
    let mut t = touchpad();
    assert_eq!(t.adc_interrupt(0x4), InterruptAction::ReadData);
    let step = t.next_row(1234);
    assert_eq!(step.channel, 1);
    assert_eq!(t.in_progress().inner[1], 1234);
    assert_eq!(t.current_row(), 1);
}

#[test]
fn frame_carries_the_period_set_during_the_scan() {
    let mut t = touchpad();
    t.set_period(7);
    let mut frame = None;
    for _ in 0..(M * N) {
        if let Some(f) = t.next_row(1).frame {
            frame = Some(f);
        }
    }
    let frame = frame.unwrap();
    assert_eq!(frame.inner[0], 7);
    assert!(frame.inner[1..].iter().all(|&v| v == 1));
}

#[test]
fn set_period_gives_half_duty() {
    let mut t = touchpad();
    let timing = t.set_period(9);
    assert_eq!(t.period(), 9);
    assert_eq!(timing.auto_reload, 9);
    assert_eq!(timing.compare, 4);
    assert_eq!(pwm_timing(10).compare, 5);
}

#[test]
fn column_outputs_follow_the_wiring() {
    assert_eq!(column_output(0), Some(OutputChannel { timer: Timer::Tim2, ccer_bit: 1 << 12 }));
    assert_eq!(column_output(5), Some(OutputChannel { timer: Timer::Tim1, ccer_bit: 1 << 10 }));
    assert_eq!(column_output(9), Some(OutputChannel { timer: Timer::Tim3, ccer_bit: 1 }));
    assert_eq!(column_output(11), Some(OutputChannel { timer: Timer::Tim16, ccer_bit: 1 << 2 }));
    assert_eq!(column_output(12), Some(OutputChannel { timer: Timer::Tim17, ccer_bit: 1 << 2 }));
    assert_eq!(column_output(13), Some(OutputChannel { timer: Timer::Tim16, ccer_bit: 1 }));
    assert_eq!(column_output(14), Some(OutputChannel { timer: Timer::Tim17, ccer_bit: 1 }));
    assert_eq!(column_output(15), None);
    assert_eq!(
        Touchpad::on(7),
        Some(CcerUpdate { timer: Timer::Tim1, ccer_bit: 1 << 2, enable: true })
    );
    assert_eq!(
        Touchpad::off(8),
        Some(CcerUpdate { timer: Timer::Tim2, ccer_bit: 1 << 4, enable: false })
    );
    assert_eq!(Touchpad::on(99), None);
    for a in 0..N {
        for b in (a + 1)..N {
            assert_ne!(column_output(a), column_output(b));
        }
    }
}

fn timer_index(t: Timer) -> usize {
    match t {
        Timer::Tim1 => 0,
        Timer::Tim2 => 1,
        Timer::Tim3 => 2,
        Timer::Tim16 => 3,
        Timer::Tim17 => 4,
    }
}

fn driven(ccers: &[u32; 5]) -> Vec<usize> {
    (0..N)
        .filter(|&k| {
            let ch = column_output(k).unwrap();
            ccers[timer_index(ch.timer)] & ch.ccer_bit != 0
        })
        .collect()
}

#[test]
fn one_column_driven_at_a_time() {
    let mut t = touchpad();
    let mut ccers = [0u32; 5];
    for k in 0..(3 * M * N) {
        let step = t.next_row(k as u16);
        if let Some(change) = step.column_change {
            for u in [Touchpad::off(change.off), Touchpad::on(change.on)].into_iter().flatten() {
                let i = timer_index(u.timer);
                ccers[i] = u.applied_to(ccers[i]);
            }
            assert_eq!(driven(&ccers), vec![change.on]);
        }
    }
}
