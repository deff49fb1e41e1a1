use touchtron::f0::adc::{
    is_end_of_conversion, is_overrun, Adc, AdcPhase, Register, RegisterAccess,
};

fn modify(register: Register, clear: u32, set: u32) -> RegisterAccess {
    RegisterAccess::Modify { register, clear, set }
}

fn wait(register: Register, mask: u32, expect: u32) -> RegisterAccess {
    RegisterAccess::WaitUntil { register, mask, expect }
}

#[test]
fn power_on_from_reset() {
    let mut adc = Adc::new();
    assert_eq!(adc.phase(), AdcPhase::PowerOn(0));
    assert!(!adc.is_ready());
    let expected = vec![
        modify(Register::RccApb2enr, 0, 0x200),
        modify(Register::RccCr2, 0, 0x1),
        wait(Register::RccCr2, 0x2, 0x2),
        RegisterAccess::Read { register: Register::AdcCr },
        wait(Register::AdcCr, 0x1, 0),
        modify(Register::AdcCfgr1, 0x1, 0),
        modify(Register::AdcCr, 0, 0x8000_0000),
        wait(Register::AdcCr, 0x8000_0000, 0),
        modify(Register::AdcSmpr, 0x7, 0x7),
        modify(Register::AdcCfgr1, 0x38, 0),
        modify(Register::AdcIer, 0, 0x4),
        RegisterAccess::Read { register: Register::AdcIsr },
        modify(Register::AdcCr, 0, 0x1),
        wait(Register::AdcIsr, 0x1, 0x1),
    ];
    let mut got = Vec::new();
    while let Some(access) = adc.step(0) {
        got.push(access);
    }
    assert_eq!(got, expected);
    assert!(adc.is_ready());
    assert_eq!(adc.step(0), None);
}

#[test]
fn power_on_disables_an_enabled_adc_and_clears_ready() {
    let mut adc = Adc::new();
    for _ in 0..3 {
        adc.step(0);
    }
    assert_eq!(adc.step(0), Some(RegisterAccess::Read { register: Register::AdcCr }));
    // CR reads back with ADEN set.
    assert_eq!(adc.step(0x1), Some(modify(Register::AdcCr, 0, 0x2)));
    assert_eq!(adc.step(0), Some(wait(Register::AdcCr, 0x1, 0)));
    for _ in 0..6 {
        adc.step(0);
    }
    assert_eq!(adc.step(0), Some(RegisterAccess::Read { register: Register::AdcIsr }));
    // ISR reads back with ADRDY set.
    assert_eq!(adc.step(0x1), Some(modify(Register::AdcIsr, 0, 0x1)));
    assert_eq!(adc.step(0), Some(modify(Register::AdcCr, 0, 0x1)));
    assert_eq!(adc.step(0), Some(wait(Register::AdcIsr, 0x1, 0x1)));
    assert_eq!(adc.step(0), None);
    assert_eq!(adc.phase(), AdcPhase::Ready);
}

fn ready_adc() -> Adc {
    let mut adc = Adc::new();
    let mut n = 0;
    while adc.step(0).is_some() {
        n += 1;
    }
    assert!(n <= 16);
    adc
}

#[test]
fn start_selects_one_channel_then_starts() {
    let adc = ready_adc();
    let (select, start) = adc.start(3);
    assert_eq!(select, RegisterAccess::Write { register: Register::AdcChselr, value: 0b1000 });
    assert_eq!(start, modify(Register::AdcCr, 0, 0x4));
    let (select, _) = adc.start(0);
    assert_eq!(select, RegisterAccess::Write { register: Register::AdcChselr, value: 1 });
}

#[test]
fn power_down_stops_then_disables() {
    let mut adc = ready_adc();
    adc.power_down();
    assert_eq!(adc.phase(), AdcPhase::PowerDown(0));
    assert_eq!(adc.step(0), Some(modify(Register::AdcCr, 0, 0x10)));
    assert_eq!(adc.step(0), Some(wait(Register::AdcCr, 0x10, 0)));
    assert_eq!(adc.step(0), Some(modify(Register::AdcCr, 0, 0x2)));
    assert_eq!(adc.step(0), Some(wait(Register::AdcCr, 0x1, 0)));
    assert_eq!(adc.step(0), None);
    assert_eq!(adc.phase(), AdcPhase::Off);
}

#[test]
fn isr_flags() {
    assert!(is_overrun(0x10));
    assert!(!is_overrun(0x04));
    assert!(is_end_of_conversion(0x04));
    assert!(is_end_of_conversion(0x0d));
    assert!(!is_end_of_conversion(0x10));
}
