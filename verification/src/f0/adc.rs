//! The ADC of the touchpad board, driven as a protocol: the driver says which
//! register access comes next, the caller performs it on the peripheral and hands
//! back what it read.
use vstd::prelude::*;

verus! {

/// RCC_APB2ENR: ADC clock enable.
pub const RCC_APB2ENR_ADCEN: u32 = 0x0000_0200;
/// RCC_CR2: HSI14 oscillator on.
pub const RCC_CR2_HSI14ON: u32 = 0x0000_0001;
/// RCC_CR2: HSI14 oscillator ready.
pub const RCC_CR2_HSI14RDY: u32 = 0x0000_0002;
/// ADC_ISR: ADC ready.
pub const ADC_ISR_ADRDY: u32 = 0x0000_0001;
/// ADC_ISR: end of conversion.
pub const ADC_ISR_EOC: u32 = 0x0000_0004;
/// ADC_ISR: overrun.
pub const ADC_ISR_OVR: u32 = 0x0000_0010;
/// ADC_IER: end-of-conversion interrupt enable.
pub const ADC_IER_EOCIE: u32 = 0x0000_0004;
/// ADC_CR: enable.
pub const ADC_CR_ADEN: u32 = 0x0000_0001;
/// ADC_CR: disable.
pub const ADC_CR_ADDIS: u32 = 0x0000_0002;
/// ADC_CR: start conversion.
pub const ADC_CR_ADSTART: u32 = 0x0000_0004;
/// ADC_CR: stop conversion.
pub const ADC_CR_ADSTP: u32 = 0x0000_0010;
/// ADC_CR: start calibration.
pub const ADC_CR_ADCAL: u32 = 0x8000_0000;
/// ADC_CFGR1: DMA enable.
pub const ADC_CFGR1_DMAEN: u32 = 0x0000_0001;
/// ADC_CFGR1: resolution field (zero is 12 bits).
pub const ADC_CFGR1_RES: u32 = 0x0000_0018;
/// ADC_CFGR1: left alignment (zero is right alignment).
pub const ADC_CFGR1_ALIGN: u32 = 0x0000_0020;
/// ADC_SMPR: sampling time field (all ones is 239.5 cycles).
pub const ADC_SMPR_SMP: u32 = 0x0000_0007;

/// A register that the driver reads or writes.
#[derive(Clone, Copy, Debug, PartialEq, Eq, Structural)]
pub enum Register {
    RccApb2enr,
    RccCr2,
    AdcIsr,
    AdcIer,
    AdcCr,
    AdcCfgr1,
    AdcSmpr,
    AdcChselr,
}

/// One access to a register, to be performed by the caller.
#[derive(Clone, Copy, Debug, PartialEq, Eq, Structural)]
pub enum RegisterAccess {
    /// Read the register and write back `(value & !clear) | set`.
    Modify { register: Register, clear: u32, set: u32 },
    /// Write `value` to the register.
    Write { register: Register, value: u32 },
    /// Read the register and hand the value to the next step.
    Read { register: Register },
    /// Read the register until `value & mask == expect`.
    WaitUntil { register: Register, mask: u32, expect: u32 },
}

/// Where the driver stands.
#[derive(Clone, Copy, Debug, PartialEq, Eq, Structural)]
pub enum AdcPhase {
    /// Bringing the ADC up; the number is the step of that sequence.
    PowerOn(u8),
    /// Calibrated, configured and enabled: conversions can be started.
    Ready,
    /// Taking the ADC down; the number is the step of that sequence.
    PowerDown(u8),
    /// Stopped and disabled.
    Off,
}

/// Number of steps of the power-on sequence.
pub const POWER_ON_STEPS: u8 = 16;

/// Number of steps of the power-down sequence.
pub const POWER_DOWN_STEPS: u8 = 4;

/// Set `bits` in `register`.
pub open spec fn set_bits(register: Register, bits: u32) -> RegisterAccess {
    RegisterAccess::Modify { register, clear: 0, set: bits }
}

/// Clear `bits` in `register`.
pub open spec fn clear_bits(register: Register, bits: u32) -> RegisterAccess {
    RegisterAccess::Modify { register, clear: bits, set: 0 }
}

/// Wait until `bits` all read as ones (`high`) or as zeros in `register`.
pub open spec fn wait_for(register: Register, bits: u32, high: bool) -> RegisterAccess {
    RegisterAccess::WaitUntil { register, mask: bits, expect: if high { bits } else { 0 } }
}

/// Step `k` of the power-on sequence, given the value of the last register read:
/// the access it asks for and the phase that follows.
///
/// Clock: enable the ADC clock, start HSI14, wait until it is ready.
/// Calibration: if the ADC is enabled, disable it; wait until it is disabled; clear
/// DMAEN; start calibration; wait until it is done.
/// Configuration: 239.5-cycle sampling, 12-bit right-aligned results,
/// end-of-conversion interrupt.
/// Enable: if ADRDY is set, clear it; enable the ADC; wait until it is ready.
pub open spec fn power_on_step(k: u8, last_read: u32) -> (RegisterAccess, AdcPhase) {
    if k == 0 {
        (set_bits(Register::RccApb2enr, RCC_APB2ENR_ADCEN), AdcPhase::PowerOn(1))
    } else if k == 1 {
        (set_bits(Register::RccCr2, RCC_CR2_HSI14ON), AdcPhase::PowerOn(2))
    } else if k == 2 {
        (wait_for(Register::RccCr2, RCC_CR2_HSI14RDY, true), AdcPhase::PowerOn(3))
    } else if k == 3 {
        (RegisterAccess::Read { register: Register::AdcCr }, AdcPhase::PowerOn(4))
    } else if k == 4 {
        if last_read & ADC_CR_ADEN != 0 {
            (set_bits(Register::AdcCr, ADC_CR_ADDIS), AdcPhase::PowerOn(5))
        } else {
            (wait_for(Register::AdcCr, ADC_CR_ADEN, false), AdcPhase::PowerOn(6))
        }
    } else if k == 5 {
        (wait_for(Register::AdcCr, ADC_CR_ADEN, false), AdcPhase::PowerOn(6))
    } else if k == 6 {
        (clear_bits(Register::AdcCfgr1, ADC_CFGR1_DMAEN), AdcPhase::PowerOn(7))
    } else if k == 7 {
        (set_bits(Register::AdcCr, ADC_CR_ADCAL), AdcPhase::PowerOn(8))
    } else if k == 8 {
        (wait_for(Register::AdcCr, ADC_CR_ADCAL, false), AdcPhase::PowerOn(9))
    } else if k == 9 {
        (
            RegisterAccess::Modify {
                register: Register::AdcSmpr,
                clear: ADC_SMPR_SMP,
                set: ADC_SMPR_SMP,
            },
            AdcPhase::PowerOn(10),
        )
    } else if k == 10 {
        (
            clear_bits(Register::AdcCfgr1, ADC_CFGR1_RES | ADC_CFGR1_ALIGN),
            AdcPhase::PowerOn(11),
        )
    } else if k == 11 {
        (set_bits(Register::AdcIer, ADC_IER_EOCIE), AdcPhase::PowerOn(12))
    } else if k == 12 {
        (RegisterAccess::Read { register: Register::AdcIsr }, AdcPhase::PowerOn(13))
    } else if k == 13 {
        if last_read & ADC_ISR_ADRDY != 0 {
            (set_bits(Register::AdcIsr, ADC_ISR_ADRDY), AdcPhase::PowerOn(14))
        } else {
            (set_bits(Register::AdcCr, ADC_CR_ADEN), AdcPhase::PowerOn(15))
        }
    } else if k == 14 {
        (set_bits(Register::AdcCr, ADC_CR_ADEN), AdcPhase::PowerOn(15))
    } else {
        (wait_for(Register::AdcIsr, ADC_ISR_ADRDY, true), AdcPhase::Ready)
    }
}

/// Step `k` of the power-down sequence: stop conversions, wait until stopped,
/// disable the ADC, wait until disabled.
pub open spec fn power_down_step(k: u8) -> (RegisterAccess, AdcPhase) {
    if k == 0 {
        (set_bits(Register::AdcCr, ADC_CR_ADSTP), AdcPhase::PowerDown(1))
    } else if k == 1 {
        (wait_for(Register::AdcCr, ADC_CR_ADSTP, false), AdcPhase::PowerDown(2))
    } else if k == 2 {
        (set_bits(Register::AdcCr, ADC_CR_ADDIS), AdcPhase::PowerDown(3))
    } else {
        (wait_for(Register::AdcCr, ADC_CR_ADEN, false), AdcPhase::Off)
    }
}

/// One step of the driver from `phase`: the access asked for, if any, and the next phase.
pub open spec fn adc_step(phase: AdcPhase, last_read: u32) -> (Option<RegisterAccess>, AdcPhase) {
    match phase {
        AdcPhase::PowerOn(k) => {
            let (a, p) = power_on_step(k, last_read);
            (Some(a), p)
        },
        AdcPhase::PowerDown(k) => {
            let (a, p) = power_down_step(k);
            (Some(a), p)
        },
        AdcPhase::Ready => (None, AdcPhase::Ready),
        AdcPhase::Off => (None, AdcPhase::Off),
    }
}

/// The accesses that start a conversion of `channel`: select the channel alone, then
/// start the conversion.
pub open spec fn start_accesses(channel: u8) -> (RegisterAccess, RegisterAccess) {
    (
        RegisterAccess::Write { register: Register::AdcChselr, value: 1u32 << channel },
        set_bits(Register::AdcCr, ADC_CR_ADSTART),
    )
}

/// Whether a phase can occur.
pub open spec fn phase_valid(phase: AdcPhase) -> bool {
    match phase {
        AdcPhase::PowerOn(k) => k < POWER_ON_STEPS,
        AdcPhase::PowerDown(k) => k < POWER_DOWN_STEPS,
        _ => true,
    }
}

/// The ADC of the board, seen through the protocol that brings it up and down.
pub struct Adc {
    phase: AdcPhase,
}

impl View for Adc {
    type V = AdcPhase;

    closed spec fn view(&self) -> AdcPhase {
        self.phase
    }
}

impl Adc {
    #[verifier::type_invariant]
    spec fn valid(self) -> bool {
        phase_valid(self.phase)
    }

    /// Begins bringing the ADC up: clock, calibration, configuration, enable.
    /// `step` then gives the accesses one by one.
    pub fn new() -> (adc: Adc)
        ensures
            adc@ == AdcPhase::PowerOn(0),
    {
        Adc { phase: AdcPhase::PowerOn(0) }
    }

    /// Where the driver stands.
    pub fn phase(&self) -> (p: AdcPhase)
        ensures
            p == self@,
    {
        self.phase
    }

    /// Whether conversions can be started.
    pub fn is_ready(&self) -> (ready: bool)
        ensures
            ready == (self@ == AdcPhase::Ready),
    {
        match self.phase {
            AdcPhase::Ready => true,
            _ => false,
        }
    }

    /// The next access of the sequence in progress, given the value that the last
    /// `Read` access returned (any value where the last access read nothing);
    /// `None` once the ADC is ready or off.
    pub fn step(&mut self, last_read: u32) -> (access: Option<RegisterAccess>)
        ensures
            (access, final(self)@) == adc_step(old(self)@, last_read),
            phase_valid(final(self)@),
    {
        proof {
            use_type_invariant(&*self);
        }
        let (access, next) = match self.phase {
            AdcPhase::PowerOn(k) => {
                let (a, p) = Self::power_on(k, last_read);
                (Some(a), p)
            },
            AdcPhase::PowerDown(k) => {
                let (a, p) = Self::power_down_access(k);
                (Some(a), p)
            },
            AdcPhase::Ready => (None, AdcPhase::Ready),
            AdcPhase::Off => (None, AdcPhase::Off),
        };
        self.phase = next;
        access
    }

    fn power_on(k: u8, last_read: u32) -> (r: (RegisterAccess, AdcPhase))
        requires
            k < POWER_ON_STEPS,
        ensures
            r == power_on_step(k, last_read),
            phase_valid(r.1),
    {
        if k == 0 {
            (
                RegisterAccess::Modify {
                    register: Register::RccApb2enr,
                    clear: 0,
                    set: RCC_APB2ENR_ADCEN,
                },
                AdcPhase::PowerOn(1),
            )
        } else if k == 1 {
            (
                RegisterAccess::Modify { register: Register::RccCr2, clear: 0, set: RCC_CR2_HSI14ON },
                AdcPhase::PowerOn(2),
            )
        } else if k == 2 {
            (
                RegisterAccess::WaitUntil {
                    register: Register::RccCr2,
                    mask: RCC_CR2_HSI14RDY,
                    expect: RCC_CR2_HSI14RDY,
                },
                AdcPhase::PowerOn(3),
            )
        } else if k == 3 {
            (RegisterAccess::Read { register: Register::AdcCr }, AdcPhase::PowerOn(4))
        } else if k == 4 {
            if last_read & ADC_CR_ADEN != 0 {
                (
                    RegisterAccess::Modify { register: Register::AdcCr, clear: 0, set: ADC_CR_ADDIS },
                    AdcPhase::PowerOn(5),
                )
            } else {
                (
                    RegisterAccess::WaitUntil { register: Register::AdcCr, mask: ADC_CR_ADEN, expect: 0 },
                    AdcPhase::PowerOn(6),
                )
            }
        } else if k == 5 {
            (
                RegisterAccess::WaitUntil { register: Register::AdcCr, mask: ADC_CR_ADEN, expect: 0 },
                AdcPhase::PowerOn(6),
            )
        } else if k == 6 {
            (
                RegisterAccess::Modify {
                    register: Register::AdcCfgr1,
                    clear: ADC_CFGR1_DMAEN,
                    set: 0,
                },
                AdcPhase::PowerOn(7),
            )
        } else if k == 7 {
            (
                RegisterAccess::Modify { register: Register::AdcCr, clear: 0, set: ADC_CR_ADCAL },
                AdcPhase::PowerOn(8),
            )
        } else if k == 8 {
            (
                RegisterAccess::WaitUntil { register: Register::AdcCr, mask: ADC_CR_ADCAL, expect: 0 },
                AdcPhase::PowerOn(9),
            )
        } else if k == 9 {
            (
                RegisterAccess::Modify {
                    register: Register::AdcSmpr,
                    clear: ADC_SMPR_SMP,
                    set: ADC_SMPR_SMP,
                },
                AdcPhase::PowerOn(10),
            )
        } else if k == 10 {
            (
                RegisterAccess::Modify {
                    register: Register::AdcCfgr1,
                    clear: ADC_CFGR1_RES | ADC_CFGR1_ALIGN,
                    set: 0,
                },
                AdcPhase::PowerOn(11),
            )
        } else if k == 11 {
            (
                RegisterAccess::Modify { register: Register::AdcIer, clear: 0, set: ADC_IER_EOCIE },
                AdcPhase::PowerOn(12),
            )
        } else if k == 12 {
            (RegisterAccess::Read { register: Register::AdcIsr }, AdcPhase::PowerOn(13))
        } else if k == 13 {
            if last_read & ADC_ISR_ADRDY != 0 {
                (
                    RegisterAccess::Modify { register: Register::AdcIsr, clear: 0, set: ADC_ISR_ADRDY },
                    AdcPhase::PowerOn(14),
                )
            } else {
                (
                    RegisterAccess::Modify { register: Register::AdcCr, clear: 0, set: ADC_CR_ADEN },
                    AdcPhase::PowerOn(15),
                )
            }
        } else if k == 14 {
            (
                RegisterAccess::Modify { register: Register::AdcCr, clear: 0, set: ADC_CR_ADEN },
                AdcPhase::PowerOn(15),
            )
        } else {
            (
                RegisterAccess::WaitUntil {
                    register: Register::AdcIsr,
                    mask: ADC_ISR_ADRDY,
                    expect: ADC_ISR_ADRDY,
                },
                AdcPhase::Ready,
            )
        }
    }

    fn power_down_access(k: u8) -> (r: (RegisterAccess, AdcPhase))
        requires
            k < POWER_DOWN_STEPS,
        ensures
            r == power_down_step(k),
            phase_valid(r.1),
    {
        if k == 0 {
            (
                RegisterAccess::Modify { register: Register::AdcCr, clear: 0, set: ADC_CR_ADSTP },
                AdcPhase::PowerDown(1),
            )
        } else if k == 1 {
            (
                RegisterAccess::WaitUntil { register: Register::AdcCr, mask: ADC_CR_ADSTP, expect: 0 },
                AdcPhase::PowerDown(2),
            )
        } else if k == 2 {
            (
                RegisterAccess::Modify { register: Register::AdcCr, clear: 0, set: ADC_CR_ADDIS },
                AdcPhase::PowerDown(3),
            )
        } else {
            (
                RegisterAccess::WaitUntil { register: Register::AdcCr, mask: ADC_CR_ADEN, expect: 0 },
                AdcPhase::Off,
            )
        }
    }

    /// Begins taking a ready ADC down: stop conversions, then disable it.
    pub fn power_down(&mut self)
        requires
            old(self)@ == AdcPhase::Ready,
        ensures
            final(self)@ == AdcPhase::PowerDown(0),
    {
        self.phase = AdcPhase::PowerDown(0);
    }

    /// The two accesses that start a conversion of `channel`: select the channel
    /// alone, then start the conversion.
    pub fn start(&self, channel: u8) -> (accesses: (RegisterAccess, RegisterAccess))
        requires
            self@ == AdcPhase::Ready,
            channel < 32,
        ensures
            accesses == start_accesses(channel),
    {
        (
            RegisterAccess::Write { register: Register::AdcChselr, value: 1u32 << channel },
            RegisterAccess::Modify { register: Register::AdcCr, clear: 0, set: ADC_CR_ADSTART },
        )
    }
}

/// The phase reached from `phase` when the register reads are `reads`, one per step.
pub open spec fn run_adc(phase: AdcPhase, reads: Seq<u32>) -> AdcPhase
    decreases reads.len(),
{
    if reads.len() == 0 {
        phase
    } else {
        run_adc(adc_step(phase, reads[0]).1, reads.drop_first())
    }
}

/// Bringing the ADC up always ends: from any step `k` of the power-on sequence,
/// whatever the peripheral reads back, at most `16 - k` steps reach `Ready`, and
/// the driver stays there.
pub proof fn lemma_power_on_completes(k: u8, reads: Seq<u32>)
    requires
        k < POWER_ON_STEPS,
        reads.len() >= POWER_ON_STEPS - k,
    ensures
        run_adc(AdcPhase::PowerOn(k), reads) == AdcPhase::Ready,
    decreases reads.len(),
{
    let next = adc_step(AdcPhase::PowerOn(k), reads[0]).1;
    if next == AdcPhase::Ready {
        lemma_ready_is_stable(reads.drop_first());
    } else {
        let k2 = next->PowerOn_0;
        assert(k < k2 < POWER_ON_STEPS);
        lemma_power_on_completes(k2, reads.drop_first());
    }
}

/// Once ready, the driver asks for nothing more until it is told to power down.
pub proof fn lemma_ready_is_stable(reads: Seq<u32>)
    ensures
        run_adc(AdcPhase::Ready, reads) == AdcPhase::Ready,
    decreases reads.len(),
{
    if reads.len() > 0 {
        lemma_ready_is_stable(reads.drop_first());
    }
}

/// Taking the ADC down ends too: from step `k`, `4 - k` steps reach `Off`.
pub proof fn lemma_power_down_completes(k: u8, reads: Seq<u32>)
    requires
        k < POWER_DOWN_STEPS,
        reads.len() >= POWER_DOWN_STEPS - k,
    ensures
        run_adc(AdcPhase::PowerDown(k), reads) == AdcPhase::Off,
    decreases reads.len(),
{
    let next = adc_step(AdcPhase::PowerDown(k), reads[0]).1;
    if next == AdcPhase::Off {
        lemma_off_is_stable(reads.drop_first());
    } else {
        lemma_power_down_completes((k + 1) as u8, reads.drop_first());
    }
}

/// Once off, the driver asks for nothing more.
pub proof fn lemma_off_is_stable(reads: Seq<u32>)
    ensures
        run_adc(AdcPhase::Off, reads) == AdcPhase::Off,
    decreases reads.len(),
{
    if reads.len() > 0 {
        lemma_off_is_stable(reads.drop_first());
    }
}

/// The value that a `Modify` access writes back when the register read `value`.
pub fn modified(value: u32, clear: u32, set: u32) -> (out: u32)
    ensures
        out == (value & !clear) | set,
{
    (value & !clear) | set
}

/// The power-on sequence decides twice, each time on one bit of the value it read:
/// after reading CR it disables the ADC exactly when ADEN is set, and after reading
/// ISR it clears ADRDY (by writing it as 1) exactly when ADRDY is set; every other
/// step asks for the same access whatever was read.
pub proof fn lemma_power_on_decisions(k: u8, r1: u32, r2: u32)
    requires
        k < POWER_ON_STEPS,
    ensures
        k != 4 && k != 13 ==> power_on_step(k, r1) == power_on_step(k, r2),
        (k == 4 || k == 13) && r1 & 1 == r2 & 1 ==> power_on_step(k, r1) == power_on_step(k, r2),
        k == 4 && r1 & 1 != 0 ==> power_on_step(k, r1) == (
            RegisterAccess::Modify { register: Register::AdcCr, clear: 0, set: 0x2 },
            AdcPhase::PowerOn(5),
        ),
        k == 4 && r1 & 1 == 0 ==> power_on_step(k, r1) == (
            RegisterAccess::WaitUntil { register: Register::AdcCr, mask: 0x1, expect: 0 },
            AdcPhase::PowerOn(6),
        ),
        k == 13 && r1 & 1 != 0 ==> power_on_step(k, r1) == (
            RegisterAccess::Modify { register: Register::AdcIsr, clear: 0, set: 0x1 },
            AdcPhase::PowerOn(14),
        ),
        k == 13 && r1 & 1 == 0 ==> power_on_step(k, r1) == (
            RegisterAccess::Modify { register: Register::AdcCr, clear: 0, set: 0x1 },
            AdcPhase::PowerOn(15),
        ),
{
}

/// Registers after an access on a peripheral that answers every wait: a `Modify`
/// or a `Write` stores its value, a `WaitUntil` ends with the awaited bits in the
/// register; also the value that the access hands back (a `Read` gives the register).
pub open spec fn model_access(regs: spec_fn(Register) -> u32, a: RegisterAccess) -> (spec_fn(
    Register,
) -> u32, u32) {
    match a {
        RegisterAccess::Modify { register, clear, set } => (
            |r: Register|
                if r == register {
                    (regs(r) & !clear) | set
                } else {
                    regs(r)
                },
            0,
        ),
        RegisterAccess::Write { register, value } => (
            |r: Register|
                if r == register {
                    value
                } else {
                    regs(r)
                },
            0,
        ),
        RegisterAccess::Read { register } => (regs, regs(register)),
        RegisterAccess::WaitUntil { register, mask, expect } => (
            |r: Register|
                if r == register {
                    (regs(r) & !mask) | expect
                } else {
                    regs(r)
                },
            0,
        ),
    }
}

/// The registers after running the power-on sequence from step `k` on such a
/// peripheral, for at most `fuel` steps, the last access having read `last_read`.
pub open spec fn model_power_on(
    regs: spec_fn(Register) -> u32,
    k: u8,
    last_read: u32,
    fuel: nat,
) -> spec_fn(Register) -> u32
    decreases fuel,
{
    if fuel == 0 {
        regs
    } else {
        let (a, p) = power_on_step(k, last_read);
        let (regs2, v) = model_access(regs, a);
        match p {
            AdcPhase::PowerOn(k2) => model_power_on(regs2, k2, v, (fuel - 1) as nat),
            _ => regs2,
        }
    }
}

/// What holds of the registers before step `k` of the power-on sequence.
spec fn configured_before(regs: spec_fn(Register) -> u32, k: int) -> bool {
    &&& k >= 1 ==> regs(Register::RccApb2enr) & 0x200 != 0
    &&& k >= 2 ==> regs(Register::RccCr2) & 0x1 != 0
    &&& k >= 7 ==> regs(Register::AdcCfgr1) & 0x1 == 0
    &&& k >= 9 ==> regs(Register::AdcCr) & 0x8000_0000 == 0
    &&& k >= 10 ==> regs(Register::AdcSmpr) & 0x7 == 0x7
    &&& k >= 11 ==> regs(Register::AdcCfgr1) & 0x39 == 0
    &&& k >= 12 ==> regs(Register::AdcIer) & 0x4 != 0
    &&& k >= 15 ==> regs(Register::AdcCr) & 0x1 != 0
    &&& k >= 16 ==> regs(Register::AdcIsr) & 0x1 != 0
}

proof fn lemma_power_on_bits(x: u32)
    ensures
        ((x & !0u32) | 0x200u32) & 0x200u32 != 0,
        ((x & !0u32) | 0x1u32) & 0x1u32 != 0,
        ((x & !0x2u32) | 0x2u32) & 0x1u32 == x & 0x1u32,
        ((x & !0x1u32) | 0u32) & 0x1u32 == 0,
        ((x & !0x8000_0000u32) | 0u32) & 0x8000_0000u32 == 0,
        ((x & !0x7u32) | 0x7u32) & 0x7u32 == 0x7u32,
        x & 0x1u32 == 0 ==> ((x & !0x38u32) | 0u32) & 0x39u32 == 0,
        x & 0x1u32 == 0 ==> ((x & !0x38u32) | 0u32) & 0x1u32 == 0,
        ((x & !0u32) | 0x4u32) & 0x4u32 != 0,
        ((x & !0u32) | 0x1u32) & 0x8000_0000u32 == x & 0x8000_0000u32,
        ((x & !0x1u32) | 0x1u32) & 0x1u32 != 0,
        0x18u32 | 0x20u32 == 0x38u32,
{
    assert({
        &&& ((x & !0u32) | 0x200u32) & 0x200u32 != 0
        &&& ((x & !0u32) | 0x1u32) & 0x1u32 != 0
        &&& ((x & !0x2u32) | 0x2u32) & 0x1u32 == x & 0x1u32
        &&& ((x & !0x1u32) | 0u32) & 0x1u32 == 0
        &&& ((x & !0x8000_0000u32) | 0u32) & 0x8000_0000u32 == 0
        &&& ((x & !0x7u32) | 0x7u32) & 0x7u32 == 0x7u32
        &&& (x & 0x1u32 == 0 ==> ((x & !0x38u32) | 0u32) & 0x39u32 == 0)
        &&& (x & 0x1u32 == 0 ==> ((x & !0x38u32) | 0u32) & 0x1u32 == 0)
        &&& ((x & !0u32) | 0x4u32) & 0x4u32 != 0
        &&& ((x & !0u32) | 0x1u32) & 0x8000_0000u32 == x & 0x8000_0000u32
        &&& ((x & !0x1u32) | 0x1u32) & 0x1u32 != 0
        &&& 0x18u32 | 0x20u32 == 0x38u32
    }) by (bit_vector);
}

proof fn lemma_power_on_step_configures(regs: spec_fn(Register) -> u32, k: u8, last_read: u32)
    requires
        k < POWER_ON_STEPS,
        configured_before(regs, k as int),
    ensures
        ({
            let (a, p) = power_on_step(k, last_read);
            let regs2 = model_access(regs, a).0;
            match p {
                AdcPhase::PowerOn(k2) => k < k2 < POWER_ON_STEPS && configured_before(
                    regs2,
                    k2 as int,
                ),
                AdcPhase::Ready => configured_before(regs2, 16),
                _ => false,
            }
        }),
{
    let (a, p) = power_on_step(k, last_read);
    let regs2 = model_access(regs, a).0;
    match a {
        RegisterAccess::Modify { register, .. } => lemma_power_on_bits(regs(register)),
        RegisterAccess::WaitUntil { register, .. } => lemma_power_on_bits(regs(register)),
        _ => {},
    }
    lemma_power_on_bits(regs(Register::AdcCfgr1));
    assert forall|r: Register| #[trigger] regs2(r) == match a {
        RegisterAccess::Modify { register, clear, set } => if r == register {
            (regs(r) & !clear) | set
        } else {
            regs(r)
        },
        RegisterAccess::WaitUntil { register, mask, expect } => if r == register {
            (regs(r) & !mask) | expect
        } else {
            regs(r)
        },
        RegisterAccess::Write { register, value } => if r == register {
            value
        } else {
            regs(r)
        },
        RegisterAccess::Read { .. } => regs(r),
    } by {}
    if k == 0 {
    } else if k == 1 {
    } else if k == 2 {
    } else if k == 3 {
    } else if k == 4 {
    } else if k == 5 {
    } else if k == 6 {
    } else if k == 7 {
    } else if k == 8 {
    } else if k == 9 {
    } else if k == 10 {
    } else if k == 11 {
    } else if k == 12 {
    } else if k == 13 {
    } else if k == 14 {
    } else {
    }
}

proof fn lemma_model_power_on(regs: spec_fn(Register) -> u32, k: u8, last_read: u32, fuel: nat)
    requires
        k < POWER_ON_STEPS,
        fuel >= POWER_ON_STEPS - k,
        configured_before(regs, k as int),
    ensures
        configured_before(model_power_on(regs, k, last_read, fuel), 16),
    decreases fuel,
{
    lemma_power_on_step_configures(regs, k, last_read);
    let (a, p) = power_on_step(k, last_read);
    let (regs2, v) = model_access(regs, a);
    if let AdcPhase::PowerOn(k2) = p {
        lemma_model_power_on(regs2, k2, v, (fuel - 1) as nat);
    }
}

/// Bringing the ADC up configures it as the scan needs, whatever the registers held
/// before and whatever they read back (on a peripheral that answers every wait):
/// the ADC clock is on, HSI14 is on, DMA is off, results are 12-bit right-aligned,
/// sampling takes 239.5 cycles, the end-of-conversion interrupt is on, calibration
/// has finished, and the ADC is enabled and ready.
pub proof fn lemma_power_on_configures(regs: spec_fn(Register) -> u32)
    ensures
        ({
            let f = model_power_on(regs, 0, 0, POWER_ON_STEPS as nat);
            &&& f(Register::RccApb2enr) & 0x200 != 0
            &&& f(Register::RccCr2) & 0x1 != 0
            &&& f(Register::AdcCfgr1) & 0x1 == 0
            &&& f(Register::AdcCfgr1) & 0x18 == 0
            &&& f(Register::AdcCfgr1) & 0x20 == 0
            &&& f(Register::AdcSmpr) & 0x7 == 0x7
            &&& f(Register::AdcIer) & 0x4 != 0
            &&& f(Register::AdcCr) & 0x8000_0000 == 0
            &&& f(Register::AdcCr) & 0x1 != 0
            &&& f(Register::AdcIsr) & 0x1 != 0
        }),
{
    lemma_model_power_on(regs, 0, 0, POWER_ON_STEPS as nat);
    let x = model_power_on(regs, 0, 0, POWER_ON_STEPS as nat)(Register::AdcCfgr1);
    assert(x & 0x39 == 0 ==> x & 0x18 == 0 && x & 0x20 == 0) by (bit_vector);
}

/// Starting a conversion selects exactly the one channel asked for, and sets ADSTART
/// (bit 2 of CR) while leaving the other bits of CR as they were.
pub proof fn lemma_start_selects_one_channel(regs: spec_fn(Register) -> u32, channel: u8, j: u32)
    requires
        channel < 32,
        j < 32,
    ensures
        ({
            let (select, start) = start_accesses(channel);
            let after = model_access(model_access(regs, select).0, start).0;
            &&& (after(Register::AdcChselr) & (1u32 << j) != 0) <==> j == channel
            &&& after(Register::AdcCr) == regs(Register::AdcCr) | 0x4
        }),
{
    let c = channel as u32;
    let (select, start) = start_accesses(channel);
    let mid = model_access(regs, select).0;
    let after = model_access(mid, start).0;
    assert(after(Register::AdcChselr) == mid(Register::AdcChselr));
    assert(mid(Register::AdcChselr) == 1u32 << channel);
    assert(1u32 << channel == 1u32 << c);
    assert(c < 32 && j < 32 ==> (((1u32 << c) & (1u32 << j) != 0) <==> j == c)) by (bit_vector);
    let x = regs(Register::AdcCr);
    assert((x & !0u32) | 0x4u32 == x | 0x4u32) by (bit_vector);
}

/// The flags and fields of the RCC and ADC registers that the driver uses sit at
/// their places in the reference manual (RM0091).
pub proof fn lemma_register_bit_positions()
    ensures
        RCC_APB2ENR_ADCEN == 1u32 << 9u32,
        RCC_CR2_HSI14ON == 1u32 << 0u32,
        RCC_CR2_HSI14RDY == 1u32 << 1u32,
        ADC_ISR_ADRDY == 1u32 << 0u32,
        ADC_ISR_EOC == 1u32 << 2u32,
        ADC_ISR_OVR == 1u32 << 4u32,
        ADC_IER_EOCIE == 1u32 << 2u32,
        ADC_CR_ADEN == 1u32 << 0u32,
        ADC_CR_ADDIS == 1u32 << 1u32,
        ADC_CR_ADSTART == 1u32 << 2u32,
        ADC_CR_ADSTP == 1u32 << 4u32,
        ADC_CR_ADCAL == 1u32 << 31u32,
        ADC_CFGR1_DMAEN == 1u32 << 0u32,
        ADC_CFGR1_RES == 3u32 << 3u32,
        ADC_CFGR1_ALIGN == 1u32 << 5u32,
        ADC_SMPR_SMP == 7u32 << 0u32,
{
    assert(1u32 << 9u32 == 0x200u32 && 1u32 << 0u32 == 1u32 && 1u32 << 1u32 == 2u32 && 1u32
        << 2u32 == 4u32 && 1u32 << 4u32 == 0x10u32 && 1u32 << 31u32 == 0x8000_0000u32 && 3u32
        << 3u32 == 0x18u32 && 1u32 << 5u32 == 0x20u32 && 7u32 << 0u32 == 7u32) by (bit_vector);
}

/// The registers after running the power-down sequence from step `k` on a
/// peripheral that answers every wait, for at most `fuel` steps.
pub open spec fn model_power_down(regs: spec_fn(Register) -> u32, k: u8, fuel: nat) -> spec_fn(
    Register,
) -> u32
    decreases fuel,
{
    if fuel == 0 {
        regs
    } else {
        let (a, p) = power_down_step(k);
        let regs2 = model_access(regs, a).0;
        match p {
            AdcPhase::PowerDown(k2) => model_power_down(regs2, k2, (fuel - 1) as nat),
            _ => regs2,
        }
    }
}

/// Taking the ADC down stops it and disables it, whatever the registers held: it
/// asks for a stop (ADSTP, bit 4 of CR) and then for a disable (ADDIS, bit 1), and
/// ends with no conversion being stopped (ADSTP clear) and the ADC disabled (ADEN
/// clear), leaving the other registers alone.
pub proof fn lemma_power_down_disables(regs: spec_fn(Register) -> u32)
    ensures
        power_down_step(0).0 == (RegisterAccess::Modify {
            register: Register::AdcCr,
            clear: 0,
            set: 0x10,
        }),
        power_down_step(2).0 == (RegisterAccess::Modify {
            register: Register::AdcCr,
            clear: 0,
            set: 0x2,
        }),
        ({
            let f = model_power_down(regs, 0, POWER_DOWN_STEPS as nat);
            &&& f(Register::AdcCr) & 0x1 == 0
            &&& f(Register::AdcCr) & 0x10 == 0
            &&& forall|r: Register| r != Register::AdcCr ==> #[trigger] f(r) == regs(r)
        }),
{
    reveal_with_fuel(model_power_down, 5);
    let r0 = model_access(regs, power_down_step(0).0).0;
    let r1 = model_access(r0, power_down_step(1).0).0;
    let r2 = model_access(r1, power_down_step(2).0).0;
    let r3 = model_access(r2, power_down_step(3).0).0;
    let x = r0(Register::AdcCr);
    let y = r2(Register::AdcCr);
    assert(((x & !0x10u32) | 0u32) & 0x10u32 == 0) by (bit_vector);
    let z = r1(Register::AdcCr);
    assert(z & 0x10u32 == 0 ==> ((z & !0u32) | 0x2u32) & 0x10u32 == 0) by (bit_vector);
    assert(y & 0x10u32 == 0 ==> ((y & !0x1u32) | 0u32) & 0x10u32 == 0 && ((y & !0x1u32) | 0u32)
        & 0x1u32 == 0) by (bit_vector);
    assert(model_power_down(regs, 0, POWER_DOWN_STEPS as nat) == r3);
}

/// Whether an ADC_ISR value reports an overrun.
pub fn is_overrun(isr: u32) -> (overrun: bool)
    ensures
        overrun == (isr & ADC_ISR_OVR != 0),
{
    isr & ADC_ISR_OVR != 0
}

/// Whether an ADC_ISR value reports the end of a conversion.
pub fn is_end_of_conversion(isr: u32) -> (done: bool)
    ensures
        done == (isr & ADC_ISR_EOC != 0),
{
    isr & ADC_ISR_EOC != 0
}

} // verus!
