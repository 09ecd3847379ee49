//! GPIO operations.
//!
//! The functions here compute the register offsets and values of the
//! BCM2835 GPIO block: which bit of which register to set, clear or test
//! for a given pin. The volatile register accesses themselves are performed
//! by the surrounding program, which hands register snapshots in and
//! carries [`MmioWrite`] instructions out.

use vstd::prelude::*;

use crate::mmio::{bit32, lemma_bit32_or, lemma_bit32_zero, MmioWrite};

verus! {

/// Base address of GPIO, as an offset from the MMIO base address.
pub const GPIO_BASE: usize = 0x200000;

/// Base address of GPFSELn registers.
pub const GPFSEL_BASE: usize = 0x200000;

/// Base address of GPSETn registers.
pub const GPSET_BASE: usize = 0x20001c;

/// Base address of GPCLRn registers.
pub const GPCLR_BASE: usize = 0x200028;

/// Base address of GPLEVn registers.
pub const GPLEV_BASE: usize = 0x200034;

/// Base address of GPEDSn registers.
pub const GPEDS_BASE: usize = 0x200040;

/// Base address of GPRENn registers.
pub const GPREN_BASE: usize = 0x20004c;

/// Base address of GPFENn registers.
pub const GPFEN_BASE: usize = 0x200058;

/// Base address of GPHENn registers.
pub const GPHEN_BASE: usize = 0x200064;

/// Base address of GPLENn registers.
pub const GPLEN_BASE: usize = 0x200070;

/// Base address of GPARENn registers.
pub const GPAREN_BASE: usize = 0x20007c;

/// Base address of GPAFENn registers.
pub const GPAFEN_BASE: usize = 0x200088;

/// GPIO pull-up/down register.
pub const GPPUD: usize = 0x200094;

/// Base address of GPPUDCLKn registers.
pub const GPPUDCLK_BASE: usize = 0x200098;

/// Number of GPIO pins.
pub const NPINS: usize = 54;

/// GPIO error.
#[derive(Debug)]
pub enum Error {
    /// Invalid GPIO pin.
    InvalidGpioPin(usize),

    /// Invalid Alternate Function number.
    InvalidAltFcn(u32),
}

/// Pull state (pull-up/pull-down) for a GPIO pin.
#[derive(Debug, Copy, Clone)]
pub enum PullState {
    /// Disable pull-up/down.
    Off,

    /// Enable pull-down.
    Down,

    /// Enable pull-up.
    Up,
}

impl PullState {
    /// The value the GPPUD register takes for this pull state.
    pub open spec fn spec_encoding(self) -> u32 {
        match self {
            PullState::Off => 0,
            PullState::Down => 1,
            PullState::Up => 2,
        }
    }

    /// Returns the value the GPPUD register takes for this pull state.
    pub fn encoding(&self) -> (r: u32)
        ensures
            r == self.spec_encoding(),
    {
        match self {
            PullState::Off => 0b00,
            PullState::Down => 0b01,
            PullState::Up => 0b10,
        }
    }
}

/// Alternate function number.
#[derive(Debug, Copy, Clone)]
pub struct AltFcnNum {
    /// The three-bit field value selecting the alternate function.
    encoding: u32,
}

impl AltFcnNum {
    /// The three-bit field value, for specifications.
    pub closed spec fn spec_encoding(self) -> u32 {
        self.encoding
    }

    /// Returns the alternate function `num`, between 0 and 5.
    ///
    /// # Errors
    ///
    /// This function returns `Error::InvalidAltFcn` for numbers above 5.
    pub fn new(num: u32) -> (r: Result<AltFcnNum, Error>)
        ensures
            num <= 5 ==> r is Ok,
            num > 5 ==> r == Err::<AltFcnNum, Error>(Error::InvalidAltFcn(num)),
            r matches Ok(f) ==> f.spec_encoding() == match num {
                0 => 4u32,
                1 => 5u32,
                2 => 6u32,
                3 => 7u32,
                4 => 3u32,
                _ => 2u32,
            },
    {
        match num {
            0 => Ok(AltFcnNum { encoding: 0b100 }),
            1 => Ok(AltFcnNum { encoding: 0b101 }),
            2 => Ok(AltFcnNum { encoding: 0b110 }),
            3 => Ok(AltFcnNum { encoding: 0b111 }),
            4 => Ok(AltFcnNum { encoding: 0b011 }),
            5 => Ok(AltFcnNum { encoding: 0b010 }),
            n => Err(Error::InvalidAltFcn(n)),
        }
    }
}

/// Pin function.
#[derive(Debug, Copy, Clone)]
pub enum Function {
    /// Input pin.
    Input,

    /// Output pin.
    Output,

    /// Alternate function.
    AltFcn(AltFcnNum),
}

impl Function {
    /// The three-bit field value selecting this function.
    pub open spec fn spec_encoding(self) -> u32 {
        match self {
            Function::Input => 0,
            Function::Output => 1,
            Function::AltFcn(num) => num.spec_encoding(),
        }
    }

    /// Returns the three-bit field value selecting this function.
    pub fn encoding(&self) -> (r: u32)
        ensures
            r == self.spec_encoding(),
    {
        match self {
            Function::Input => 0b000,
            Function::Output => 0b001,
            Function::AltFcn(num) => num.encoding,
        }
    }
}

/// Pin level.
#[derive(Debug, Copy, Clone)]
pub enum Level {
    /// Low level.
    Low,

    /// High level.
    High,

    /// Unknown level.
    Unknown,
}

/// Level of the GPIO pins, decoded from a snapshot of the two GPLEVn
/// registers.
pub struct Levels {
    /// Value of GPLEV0: pins 0 to 31.
    reg0: u32,

    /// Value of GPLEV1: pins 32 to 53.
    reg1: u32,
}

impl Levels {
    /// The registers, for specifications.
    pub closed spec fn spec_regs(self) -> (u32, u32) {
        (self.reg0, self.reg1)
    }

    /// Returns the level of the provided pin.
    pub fn level(&self, pin: Pin) -> (r: Level)
        ensures
            (r is High) == bit32(
                if pin.spec_value() < 32 {
                    self.spec_regs().0
                } else {
                    self.spec_regs().1
                },
                (pin.spec_value() % 32) as u32,
            ),
            r is High || r is Low,
    {
        let reg = if pin.value < 32 {
            self.reg0
        } else {
            self.reg1
        };
        if reg & (1u32 << ((pin.value % 32) as u32)) != 0 {
            Level::High
        } else {
            Level::Low
        }
    }
}

/// Returns the levels of the GPIO pins for a snapshot of the two GPLEVn
/// registers.
pub fn levels(reg0: u32, reg1: u32) -> (r: Levels)
    ensures
        r.spec_regs() == (reg0, reg1),
{
    Levels { reg0, reg1 }
}

/// Pin event.
#[derive(Debug, Copy, Clone)]
pub enum Event {
    /// Rising edge transition using synchronous edge detection, which
    /// samples the input with the system clock and suppresses glitches.
    RisingEdge,

    /// Falling edge transition using synchronous edge detection, which
    /// samples the input with the system clock and suppresses glitches.
    FallingEdge,

    /// Rising edge transition using asynchronous edge detection, able to
    /// catch edges of very short duration.
    AsyncRisingEdge,

    /// Falling edge transition using asynchronous edge detection, able to
    /// catch edges of very short duration.
    AsyncFallingEdge,

    /// High level.
    PinHigh,

    /// Low level.
    PinLow,
}

impl Event {
    /// The base offset of the enable-register bank for this event type.
    pub open spec fn spec_reg_base(self) -> usize {
        match self {
            Event::RisingEdge => GPREN_BASE,
            Event::FallingEdge => GPFEN_BASE,
            Event::AsyncRisingEdge => GPAREN_BASE,
            Event::AsyncFallingEdge => GPAFEN_BASE,
            Event::PinHigh => GPHEN_BASE,
            Event::PinLow => GPLEN_BASE,
        }
    }

    /// Returns the base offset of the enable-register bank for this event
    /// type.
    pub fn reg_base(&self) -> (r: usize)
        ensures
            r == self.spec_reg_base(),
    {
        match self {
            Event::RisingEdge => GPREN_BASE,
            Event::FallingEdge => GPFEN_BASE,
            Event::AsyncRisingEdge => GPAREN_BASE,
            Event::AsyncFallingEdge => GPAFEN_BASE,
            Event::PinHigh => GPHEN_BASE,
            Event::PinLow => GPLEN_BASE,
        }
    }
}

/// Event status of the GPIO pins, decoded from a snapshot of the two
/// GPEDSn registers.
#[derive(Debug)]
pub struct Events {
    /// Value of GPEDS0: pins 0 to 31.
    reg0: u32,

    /// Value of GPEDS1: pins 32 to 53.
    reg1: u32,
}

impl Events {
    /// The registers, for specifications.
    pub closed spec fn spec_regs(self) -> (u32, u32) {
        (self.reg0, self.reg1)
    }

    /// Returns true if the programmed event type has been detected for the
    /// provided pin.
    pub fn detected(&self, pin: Pin) -> (r: bool)
        ensures
            r == bit32(
                if pin.spec_value() < 32 {
                    self.spec_regs().0
                } else {
                    self.spec_regs().1
                },
                (pin.spec_value() % 32) as u32,
            ),
    {
        let reg = if pin.value < 32 {
            self.reg0
        } else {
            self.reg1
        };
        reg & (1u32 << ((pin.value % 32) as u32)) != 0
    }
}

/// Returns the event status of the GPIO pins for a snapshot of the two
/// GPEDSn registers.
pub fn events(reg0: u32, reg1: u32) -> (r: Events)
    ensures
        r.spec_regs() == (reg0, reg1),
{
    Events { reg0, reg1 }
}

/// Represents a GPIO pin.
#[derive(Debug, Copy, Clone)]
pub struct Pin {
    /// The pin number, below [`NPINS`].
    value: usize,
}

impl Pin {
    /// The pin number, for specifications.
    pub closed spec fn spec_value(self) -> usize {
        self.value
    }

    /// Returns the GPIO pin with the given number.
    ///
    /// # Errors
    ///
    /// This function returns `Error::InvalidGpioPin` for numbers at or
    /// above [`NPINS`].
    pub fn new(pin: usize) -> (r: Result<Pin, Error>)
        ensures
            pin < NPINS ==> (r matches Ok(p) && p.spec_value() == pin),
            pin >= NPINS ==> r == Err::<Pin, Error>(Error::InvalidGpioPin(pin)),
    {
        if pin >= NPINS {
            return Err(Error::InvalidGpioPin(pin));
        }
        Ok(Pin { value: pin })
    }

    /// Returns the register writes that set the pin.
    pub fn set(&self) -> (r: (MmioWrite, MmioWrite))
        requires
            self.spec_value() < NPINS,
        ensures
            set_writes_spec(r, GPSET_BASE, seq![*self]),
    {
        let arr = [*self];
        proof {
            assert(arr@ =~= seq![*self]);
        }
        set(arr.as_slice())
    }

    /// Returns the register writes that clear the pin.
    pub fn clear(&self) -> (r: (MmioWrite, MmioWrite))
        requires
            self.spec_value() < NPINS,
        ensures
            set_writes_spec(r, GPCLR_BASE, seq![*self]),
    {
        let arr = [*self];
        proof {
            assert(arr@ =~= seq![*self]);
        }
        clear(arr.as_slice())
    }

    /// Returns the value of the pin in the given level snapshot.
    pub fn level(&self, levels: &Levels) -> (r: Level)
        ensures
            (r is High) == bit32(
                if self.spec_value() < 32 {
                    levels.spec_regs().0
                } else {
                    levels.spec_regs().1
                },
                (self.spec_value() % 32) as u32,
            ),
            r is High || r is Low,
    {
        levels.level(*self)
    }

    /// Returns the event status of the pin in the given event snapshot. If
    /// `true`, the programmed event type has been detected.
    pub fn detected(&self, events: &Events) -> (r: bool)
        ensures
            r == bit32(
                if self.spec_value() < 32 {
                    events.spec_regs().0
                } else {
                    events.spec_regs().1
                },
                (self.spec_value() % 32) as u32,
            ),
    {
        events.detected(*self)
    }

    /// Returns the register write that enables an event type for the pin,
    /// given the current value of the enable register.
    pub fn enable_event(&self, event: Event, current: u32) -> (r: MmioWrite)
        requires
            self.spec_value() < NPINS,
        ensures
            r.reg == event.spec_reg_base() + 4 * (self.spec_value() / 32),
            r.value == current | (1u32 << ((self.spec_value() % 32) as u32)),
    {
        let n = self.value / 32;
        let addr = event.reg_base() + n * 4;
        MmioWrite { reg: addr, value: current | (1u32 << ((self.value % 32) as u32)) }
    }

    /// Returns the register write that disables an event type for the pin,
    /// given the current value of the enable register.
    pub fn disable_event(&self, event: Event, current: u32) -> (r: MmioWrite)
        requires
            self.spec_value() < NPINS,
        ensures
            r.reg == event.spec_reg_base() + 4 * (self.spec_value() / 32),
            r.value == current & !(1u32 << ((self.spec_value() % 32) as u32)),
    {
        let n = self.value / 32;
        let addr = event.reg_base() + n * 4;
        MmioWrite { reg: addr, value: current & !(1u32 << ((self.value % 32) as u32)) }
    }

    /// Returns the register write that clears the event status of the pin.
    pub fn clear_event(&self) -> (r: MmioWrite)
        requires
            self.spec_value() < NPINS,
        ensures
            r.reg == GPEDS_BASE + 4 * (self.spec_value() / 32),
            r.value == (1u32 << ((self.spec_value() % 32) as u32)),
    {
        let n = self.value / 32;
        MmioWrite { reg: GPEDS_BASE + n * 4, value: 1u32 << ((self.value % 32) as u32) }
    }

    /// Returns the register write that configures the operation of the
    /// pin, given the current value of its GPFSELn register.
    pub fn set_function(&self, fcn: Function, current: u32) -> (r: MmioWrite)
        requires
            self.spec_value() < NPINS,
        ensures
            r.reg == GPFSEL_BASE + 4 * (self.spec_value() / 10),
            r.value == (current & !(7u32 << (((self.spec_value() % 10) * 3) as u32))) | (
            fcn.spec_encoding() << (((self.spec_value() % 10) * 3) as u32)),
    {
        let n = self.value / 10;
        let addr = GPFSEL_BASE + n * 4;
        let shift = ((self.value % 10) * 3) as u32;
        let mask: u32 = 0b111u32 << shift;
        let fcn_bits = fcn.encoding();
        MmioWrite { reg: addr, value: (current & !mask) | (fcn_bits << shift) }
    }
}

/// What the pair of register writes computed by [`set`] and [`clear`]
/// holds: the two registers of the bank at `base`, where exactly the bits
/// of the listed pins are set.
pub open spec fn set_writes_spec(r: (MmioWrite, MmioWrite), base: usize, pins: Seq<Pin>)
    -> bool {
    &&& r.0.reg == base
    &&& r.1.reg == base + 4
    &&& forall|b: u32| b < 32 ==> (bit32(r.0.value, b) == exists|j: int|
        0 <= j < pins.len() && (#[trigger] pins[j]).spec_value() == b)
    &&& forall|b: u32| b < 32 ==> (bit32(r.1.value, b) == exists|j: int|
        0 <= j < pins.len() && (#[trigger] pins[j]).spec_value() == 32 + b)
}

/// Returns the register writes that set a list of GPIO pins.
#[verifier::loop_isolation(false)]
pub fn set(pins: &[Pin]) -> (r: (MmioWrite, MmioWrite))
    requires
        forall|j: int| 0 <= j < pins@.len() ==> (#[trigger] pins@[j]).spec_value() < NPINS,
    ensures
        set_writes_spec(r, GPSET_BASE, pins@),
{
    let (v0, v1) = pin_mask(pins);
    (MmioWrite { reg: GPSET_BASE, value: v0 }, MmioWrite { reg: GPSET_BASE + 4, value: v1 })
}

/// Returns the register writes that clear a list of GPIO pins.
#[verifier::loop_isolation(false)]
pub fn clear(pins: &[Pin]) -> (r: (MmioWrite, MmioWrite))
    requires
        forall|j: int| 0 <= j < pins@.len() ==> (#[trigger] pins@[j]).spec_value() < NPINS,
    ensures
        set_writes_spec(r, GPCLR_BASE, pins@),
{
    let (v0, v1) = pin_mask(pins);
    (MmioWrite { reg: GPCLR_BASE, value: v0 }, MmioWrite { reg: GPCLR_BASE + 4, value: v1 })
}

/// Computes the two register masks holding one bit for each listed pin.
#[verifier::loop_isolation(false)]
fn pin_mask(pins: &[Pin]) -> (r: (u32, u32))
    requires
        forall|j: int| 0 <= j < pins@.len() ==> (#[trigger] pins@[j]).spec_value() < NPINS,
    ensures
        forall|b: u32| b < 32 ==> (bit32(r.0, b) == exists|j: int|
            0 <= j < pins@.len() && (#[trigger] pins@[j]).spec_value() == b),
        forall|b: u32| b < 32 ==> (bit32(r.1, b) == exists|j: int|
            0 <= j < pins@.len() && (#[trigger] pins@[j]).spec_value() == 32 + b),
{
    let mut v0: u32 = 0;
    let mut v1: u32 = 0;
    let mut i: usize = 0;
    proof {
        assert forall|b: u32| b < 32 implies !bit32(0u32, b) by {
            lemma_bit32_zero(b);
        }
    }
    while i < pins.len()
        invariant
            i <= pins@.len(),
            forall|b: u32| b < 32 ==> (bit32(v0, b) == exists|j: int|
                0 <= j < i && (#[trigger] pins@[j]).spec_value() == b),
            forall|b: u32| b < 32 ==> (bit32(v1, b) == exists|j: int|
                0 <= j < i && (#[trigger] pins@[j]).spec_value() == 32 + b),
        decreases pins@.len() - i,
    {
        let pin = pins[i];
        let bit = (pin.value % 32) as u32;
        let ghost old_v0 = v0;
        let ghost old_v1 = v1;
        if pin.value < 32 {
            v0 = v0 | (1u32 << bit);
        } else {
            v1 = v1 | (1u32 << bit);
        }
        proof {
            assert forall|b: u32| b < 32 implies (bit32(v0, b) == exists|j: int|
                0 <= j < i + 1 && (#[trigger] pins@[j]).spec_value() == b) by {
                if pins@[i as int].spec_value() < 32 {
                    lemma_bit32_or(old_v0, bit, b);
                }
            }
            assert forall|b: u32| b < 32 implies (bit32(v1, b) == exists|j: int|
                0 <= j < i + 1 && (#[trigger] pins@[j]).spec_value() == 32 + b) by {
                if pins@[i as int].spec_value() >= 32 {
                    lemma_bit32_or(old_v1, bit, b);
                }
            }
        }
        i += 1;
    }
    (v0, v1)
}

} // verus!
