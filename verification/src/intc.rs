//! Driver for the BCM2837 interrupt controller: pending-status decoding and
//! enable/disable register computation.
//!
//! The status values are decoded from snapshots of the pending registers;
//! the enable, disable and FIQ routing operations are computed as
//! [`MmioWrite`] instructions that the surrounding program performs.

use vstd::prelude::*;

use crate::mmio::{bit32, MmioWrite};

verus! {

/// Base address of the interrupt controller, as an offset from the MMIO
/// base address.
pub const INTC_BASE: usize = 0xb200;

/// Address of the basic pending register.
pub const INTBASICPEND: usize = 0xb200;

/// Base address of the GPU pending registers.
pub const INTGPUPEND_BASE: usize = 0xb204;

/// Address of the FIQ control register.
pub const FIQCTL: usize = 0xb20c;

/// Base address of the IRQ enable registers.
pub const INTEN_BASE: usize = 0xb210;

/// Base address of the IRQ disable registers.
pub const INTDIS_BASE: usize = 0xb21c;

/// Number of GPU IRQs.
pub const NGPUIRQS: usize = 64;

/// Interrupt controller error.
#[derive(Debug)]
pub enum Error {
    /// Invalid GPU IRQ number.
    InvalidGpuIrq(usize),

    /// Not a GPU interrupt.
    NotAGpuIrq,
}

/// Represents a GPU IRQ.
#[derive(Debug, Copy, Clone)]
pub struct GpuIrq {
    /// The IRQ number, below [`NGPUIRQS`].
    value: usize,
}

impl GpuIrq {
    /// The IRQ number, for specifications.
    pub closed spec fn spec_value(self) -> usize {
        self.value
    }

    /// Returns the GPU IRQ with the given number.
    ///
    /// # Errors
    ///
    /// This function returns `Error::InvalidGpuIrq` for numbers at or above
    /// [`NGPUIRQS`].
    pub fn new(irq: usize) -> (r: Result<GpuIrq, Error>)
        ensures
            irq < NGPUIRQS ==> (r matches Ok(g) && g.spec_value() == irq),
            irq >= NGPUIRQS ==> r == Err::<GpuIrq, Error>(Error::InvalidGpuIrq(irq)),
    {
        if irq >= NGPUIRQS {
            return Err(Error::InvalidGpuIrq(irq));
        }
        Ok(GpuIrq { value: irq })
    }
}

/// BCM2837 IRQ source.
#[derive(Debug, Copy, Clone)]
pub enum IrqSource {
    /// System Timer 0.
    SystemTimer0,

    /// System Timer 1.
    SystemTimer1,

    /// System Timer 2.
    SystemTimer2,

    /// System Timer 3.
    SystemTimer3,

    /// Aux.
    Aux,

    /// I2C SPI Slave.
    I2cSpiSlv,

    /// PWA0.
    Pwa0,

    /// PWA1.
    Pwa1,

    /// SMI.
    Smi,

    /// GPIO.
    GPIO,

    /// I2C.
    I2c,

    /// SPI.
    Spi,

    /// PCM.
    Pcm,

    /// UART.
    Uart,

    /// ARM Timer.
    ArmTimer,

    /// ARM Mailbox.
    ArmMailbox,

    /// ARM Doorbell 0.
    ArmDoorbell0,

    /// ARM Doorbell 1.
    ArmDoorbell1,

    /// GPU0 halted.
    Gpu0Halted,

    /// GPU1 halted.
    Gpu1Halted,

    /// Illegal Access type 1.
    IllegalAccess1,

    /// Illegal Access type 0.
    IllegalAccess0,

    /// Generic GPU IRQ.
    Gpu(GpuIrq),
}

impl IrqSource {
    /// The GPU IRQ number of the source, when it is a GPU interrupt.
    pub open spec fn spec_gpu_irq(self) -> Option<usize> {
        match self {
            IrqSource::SystemTimer0 => Some(0),
            IrqSource::SystemTimer1 => Some(1),
            IrqSource::SystemTimer2 => Some(2),
            IrqSource::SystemTimer3 => Some(3),
            IrqSource::Aux => Some(29),
            IrqSource::I2cSpiSlv => Some(43),
            IrqSource::Pwa0 => Some(45),
            IrqSource::Pwa1 => Some(46),
            IrqSource::Smi => Some(48),
            IrqSource::GPIO => Some(52),
            IrqSource::I2c => Some(53),
            IrqSource::Spi => Some(54),
            IrqSource::Pcm => Some(55),
            IrqSource::Uart => Some(57),
            IrqSource::Gpu(irq) => Some(irq.spec_value() as usize),
            _ => None,
        }
    }

    /// Returns the GPU IRQ of the source. `self` must be a GPU interrupt.
    ///
    /// # Errors
    ///
    /// This function returns `Error::NotAGpuIrq` for the ARM-side sources.
    pub fn gpu_irq(&self) -> (r: Result<GpuIrq, Error>)
        requires
            self matches IrqSource::Gpu(irq) ==> irq.spec_value() < NGPUIRQS,
        ensures
            match self.spec_gpu_irq() {
                Some(n) => r matches Ok(g) && g.spec_value() == n,
                None => r == Err::<GpuIrq, Error>(Error::NotAGpuIrq),
            },
    {
        let irq = match self {
            IrqSource::SystemTimer0 => GpuIrq { value: 0 },
            IrqSource::SystemTimer1 => GpuIrq { value: 1 },
            IrqSource::SystemTimer2 => GpuIrq { value: 2 },
            IrqSource::SystemTimer3 => GpuIrq { value: 3 },
            IrqSource::Aux => GpuIrq { value: 29 },
            IrqSource::I2cSpiSlv => GpuIrq { value: 43 },
            IrqSource::Pwa0 => GpuIrq { value: 45 },
            IrqSource::Pwa1 => GpuIrq { value: 46 },
            IrqSource::Smi => GpuIrq { value: 48 },
            IrqSource::GPIO => GpuIrq { value: 52 },
            IrqSource::I2c => GpuIrq { value: 53 },
            IrqSource::Spi => GpuIrq { value: 54 },
            IrqSource::Pcm => GpuIrq { value: 55 },
            IrqSource::Uart => GpuIrq { value: 57 },
            IrqSource::Gpu(irq) => *irq,
            _ => {
                return Err(Error::NotAGpuIrq);
            },
        };
        Ok(irq)
    }

    /// The index of the enable/disable register of the source: the two GPU
    /// banks, then the basic bank.
    pub open spec fn spec_reg_index(self) -> usize {
        match self {
            IrqSource::SystemTimer0 => 0,
            IrqSource::SystemTimer1 => 0,
            IrqSource::SystemTimer2 => 0,
            IrqSource::SystemTimer3 => 0,
            IrqSource::Aux => 0,
            IrqSource::I2cSpiSlv => 1,
            IrqSource::Pwa0 => 1,
            IrqSource::Pwa1 => 1,
            IrqSource::Smi => 1,
            IrqSource::GPIO => 1,
            IrqSource::I2c => 1,
            IrqSource::Spi => 1,
            IrqSource::Pcm => 1,
            IrqSource::Uart => 1,
            IrqSource::ArmTimer => 2,
            IrqSource::ArmMailbox => 2,
            IrqSource::ArmDoorbell0 => 2,
            IrqSource::ArmDoorbell1 => 2,
            IrqSource::Gpu0Halted => 2,
            IrqSource::Gpu1Halted => 2,
            IrqSource::IllegalAccess1 => 2,
            IrqSource::IllegalAccess0 => 2,
            IrqSource::Gpu(irq) => if irq.spec_value() < 32 {
                0
            } else {
                1
            },
        }
    }

    /// The bit position of the source inside its enable/disable register.
    pub open spec fn spec_reg_bit(self) -> u32 {
        match self {
            IrqSource::SystemTimer0 => 0,
            IrqSource::SystemTimer1 => 1,
            IrqSource::SystemTimer2 => 2,
            IrqSource::SystemTimer3 => 3,
            IrqSource::Aux => 29,
            IrqSource::I2cSpiSlv => 11,
            IrqSource::Pwa0 => 13,
            IrqSource::Pwa1 => 14,
            IrqSource::Smi => 16,
            IrqSource::GPIO => 20,
            IrqSource::I2c => 21,
            IrqSource::Spi => 22,
            IrqSource::Pcm => 23,
            IrqSource::Uart => 25,
            IrqSource::ArmTimer => 0,
            IrqSource::ArmMailbox => 1,
            IrqSource::ArmDoorbell0 => 2,
            IrqSource::ArmDoorbell1 => 3,
            IrqSource::Gpu0Halted => 4,
            IrqSource::Gpu1Halted => 5,
            IrqSource::IllegalAccess1 => 6,
            IrqSource::IllegalAccess0 => 7,
            IrqSource::Gpu(irq) => (irq.spec_value() % 32) as u32,
        }
    }

    /// Returns the register and bit position configuring this source.
    fn reg_bit(&self) -> (r: (usize, u32))
        requires
            self matches IrqSource::Gpu(irq) ==> irq.spec_value() < NGPUIRQS,
        ensures
            r.0 == self.spec_reg_index(),
            r.1 == self.spec_reg_bit(),
            r.1 < 32,
    {
        match self {
            IrqSource::SystemTimer0 => (0, 0),
            IrqSource::SystemTimer1 => (0, 1),
            IrqSource::SystemTimer2 => (0, 2),
            IrqSource::SystemTimer3 => (0, 3),
            IrqSource::Aux => (0, 29),
            IrqSource::I2cSpiSlv => (1, 11),
            IrqSource::Pwa0 => (1, 13),
            IrqSource::Pwa1 => (1, 14),
            IrqSource::Smi => (1, 16),
            IrqSource::GPIO => (1, 20),
            IrqSource::I2c => (1, 21),
            IrqSource::Spi => (1, 22),
            IrqSource::Pcm => (1, 23),
            IrqSource::Uart => (1, 25),
            IrqSource::ArmTimer => (2, 0),
            IrqSource::ArmMailbox => (2, 1),
            IrqSource::ArmDoorbell0 => (2, 2),
            IrqSource::ArmDoorbell1 => (2, 3),
            IrqSource::Gpu0Halted => (2, 4),
            IrqSource::Gpu1Halted => (2, 5),
            IrqSource::IllegalAccess1 => (2, 6),
            IrqSource::IllegalAccess0 => (2, 7),
            IrqSource::Gpu(irq) => {
                if irq.value < 32 {
                    (0, irq.value as u32)
                } else {
                    (1, (irq.value % 32) as u32)
                }
            },
        }
    }

    /// Returns the register write that enables the IRQ source.
    pub fn enable(&self) -> (r: MmioWrite)
        requires
            self matches IrqSource::Gpu(irq) ==> irq.spec_value() < NGPUIRQS,
        ensures
            r.reg == INTEN_BASE + 4 * self.spec_reg_index(),
            r.value == (1u32 << self.spec_reg_bit()),
    {
        let (idx, bit) = self.reg_bit();
        MmioWrite { reg: INTEN_BASE + idx * 4, value: 1u32 << bit }
    }

    /// Returns the register write that disables the IRQ source.
    pub fn disable(&self) -> (r: MmioWrite)
        requires
            self matches IrqSource::Gpu(irq) ==> irq.spec_value() < NGPUIRQS,
        ensures
            r.reg == INTDIS_BASE + 4 * self.spec_reg_index(),
            r.value == (1u32 << self.spec_reg_bit()),
    {
        let (idx, bit) = self.reg_bit();
        MmioWrite { reg: INTDIS_BASE + idx * 4, value: 1u32 << bit }
    }

    /// The FIQ source number of this source.
    pub open spec fn spec_fiq_source(self) -> u32 {
        match self {
            IrqSource::SystemTimer0 => 0,
            IrqSource::SystemTimer1 => 1,
            IrqSource::SystemTimer2 => 2,
            IrqSource::SystemTimer3 => 3,
            IrqSource::Aux => 29,
            IrqSource::I2cSpiSlv => 43,
            IrqSource::Pwa0 => 45,
            IrqSource::Pwa1 => 46,
            IrqSource::Smi => 48,
            IrqSource::GPIO => 52,
            IrqSource::I2c => 53,
            IrqSource::Spi => 54,
            IrqSource::Pcm => 55,
            IrqSource::Uart => 57,
            IrqSource::ArmTimer => 64,
            IrqSource::ArmMailbox => 65,
            IrqSource::ArmDoorbell0 => 66,
            IrqSource::ArmDoorbell1 => 67,
            IrqSource::Gpu0Halted => 68,
            IrqSource::Gpu1Halted => 69,
            IrqSource::IllegalAccess1 => 70,
            IrqSource::IllegalAccess0 => 71,
            IrqSource::Gpu(irq) => irq.spec_value() as u32,
        }
    }

    /// Returns the register writes that select this source as the FIQ: the
    /// IRQ is disabled first, since otherwise both the IRQ and the FIQ
    /// would trigger, and then the FIQ control register is programmed. Only
    /// a single interrupt can be selected.
    pub fn enable_fiq(&self) -> (r: (MmioWrite, MmioWrite))
        requires
            self matches IrqSource::Gpu(irq) ==> irq.spec_value() < NGPUIRQS,
        ensures
            r.0.reg == INTDIS_BASE + 4 * self.spec_reg_index(),
            r.0.value == (1u32 << self.spec_reg_bit()),
            r.1.reg == FIQCTL,
            r.1.value == ((1u32 << 7) | (self.spec_fiq_source() & 0x3f)),
    {
        let off = self.disable();
        let fiq_src = self.fiq_source();
        let fiq_mask = fiq_src & 0b11_1111;
        let reg = (1u32 << 7) | fiq_mask;
        (off, MmioWrite { reg: FIQCTL, value: reg })
    }

    /// Returns the FIQ source number of this source.
    fn fiq_source(&self) -> (r: u32)
        ensures
            r == self.spec_fiq_source(),
    {
        match self {
            IrqSource::SystemTimer0 => 0,
            IrqSource::SystemTimer1 => 1,
            IrqSource::SystemTimer2 => 2,
            IrqSource::SystemTimer3 => 3,
            IrqSource::Aux => 29,
            IrqSource::I2cSpiSlv => 43,
            IrqSource::Pwa0 => 45,
            IrqSource::Pwa1 => 46,
            IrqSource::Smi => 48,
            IrqSource::GPIO => 52,
            IrqSource::I2c => 53,
            IrqSource::Spi => 54,
            IrqSource::Pcm => 55,
            IrqSource::Uart => 57,
            IrqSource::ArmTimer => 64,
            IrqSource::ArmMailbox => 65,
            IrqSource::ArmDoorbell0 => 66,
            IrqSource::ArmDoorbell1 => 67,
            IrqSource::Gpu0Halted => 68,
            IrqSource::Gpu1Halted => 69,
            IrqSource::IllegalAccess1 => 70,
            IrqSource::IllegalAccess0 => 71,
            IrqSource::Gpu(irq) => irq.value as u32,
        }
    }
}

/// Returns the register write that disables FIQ.
pub fn disable_fiq() -> (r: MmioWrite)
    ensures
        r.reg == FIQCTL,
        r.value == 0,
{
    MmioWrite { reg: FIQCTL, value: 0 }
}

/// IRQ status of the basic sources, decoded from a snapshot of the basic
/// pending register.
#[derive(Debug)]
pub struct BasicStatus {
    /// Value of the basic pending register.
    reg: u32,
}

/// Returns the IRQ status of the basic sources for a snapshot of the basic
/// pending register.
pub fn basic_status(reg: u32) -> (r: BasicStatus)
    ensures
        r.spec_reg() == reg,
{
    BasicStatus { reg }
}

impl BasicStatus {
    /// The register snapshot, for specifications.
    pub closed spec fn spec_reg(self) -> u32 {
        self.reg
    }

    /// Returns true if the ARM Timer IRQ is pending.
    pub fn pending_arm_timer(&self) -> (r: bool)
        ensures
            r == bit32(self.spec_reg(), 0),
    {
        self.reg & (1u32 << 0) != 0
    }

    /// Returns true if the ARM Mailbox IRQ is pending.
    pub fn pending_arm_mailbox(&self) -> (r: bool)
        ensures
            r == bit32(self.spec_reg(), 1),
    {
        self.reg & (1u32 << 1) != 0
    }

    /// Returns true if the ARM Doorbell 0 IRQ is pending.
    pub fn pending_arm_doorbell_0(&self) -> (r: bool)
        ensures
            r == bit32(self.spec_reg(), 2),
    {
        self.reg & (1u32 << 2) != 0
    }

    /// Returns true if the ARM Doorbell 1 IRQ is pending.
    pub fn pending_arm_doorbell_1(&self) -> (r: bool)
        ensures
            r == bit32(self.spec_reg(), 3),
    {
        self.reg & (1u32 << 3) != 0
    }

    /// Returns true if the GPU0 halted IRQ is pending.
    pub fn pending_gpu0_halted(&self) -> (r: bool)
        ensures
            r == bit32(self.spec_reg(), 4),
    {
        self.reg & (1u32 << 4) != 0
    }

    /// Returns true if the GPU1 halted IRQ is pending.
    pub fn pending_gpu1_halted(&self) -> (r: bool)
        ensures
            r == bit32(self.spec_reg(), 5),
    {
        self.reg & (1u32 << 5) != 0
    }

    /// Returns true if the Illegal access type 1 IRQ is pending.
    pub fn pending_illegal_access_1(&self) -> (r: bool)
        ensures
            r == bit32(self.spec_reg(), 6),
    {
        self.reg & (1u32 << 6) != 0
    }

    /// Returns true if the Illegal access type 0 IRQ is pending.
    pub fn pending_illegal_access_0(&self) -> (r: bool)
        ensures
            r == bit32(self.spec_reg(), 7),
    {
        self.reg & (1u32 << 7) != 0
    }

    /// Returns true if a GPU IRQ in the range 0:31 is pending.
    pub fn pending_reg_1(&self) -> (r: bool)
        ensures
            r == bit32(self.spec_reg(), 8),
    {
        self.reg & (1u32 << 8) != 0
    }

    /// Returns true if a GPU IRQ in the range 32:63 is pending.
    pub fn pending_reg_2(&self) -> (r: bool)
        ensures
            r == bit32(self.spec_reg(), 9),
    {
        self.reg & (1u32 << 9) != 0
    }

    /// Returns true if the GPU IRQ 7 is pending.
    pub fn pending_gpu_irq_7(&self) -> (r: bool)
        ensures
            r == bit32(self.spec_reg(), 10),
    {
        self.reg & (1u32 << 10) != 0
    }

    /// Returns true if the GPU IRQ 9 is pending.
    pub fn pending_gpu_irq_9(&self) -> (r: bool)
        ensures
            r == bit32(self.spec_reg(), 11),
    {
        self.reg & (1u32 << 11) != 0
    }

    /// Returns true if the GPU IRQ 10 is pending.
    pub fn pending_gpu_irq_10(&self) -> (r: bool)
        ensures
            r == bit32(self.spec_reg(), 12),
    {
        self.reg & (1u32 << 12) != 0
    }

    /// Returns true if the GPU IRQ 18 is pending.
    pub fn pending_gpu_irq_18(&self) -> (r: bool)
        ensures
            r == bit32(self.spec_reg(), 13),
    {
        self.reg & (1u32 << 13) != 0
    }

    /// Returns true if the GPU IRQ 19 is pending.
    pub fn pending_gpu_irq_19(&self) -> (r: bool)
        ensures
            r == bit32(self.spec_reg(), 14),
    {
        self.reg & (1u32 << 14) != 0
    }

    /// Returns true if the GPU IRQ 53 is pending.
    pub fn pending_gpu_irq_53(&self) -> (r: bool)
        ensures
            r == bit32(self.spec_reg(), 15),
    {
        self.reg & (1u32 << 15) != 0
    }

    /// Returns true if the GPU IRQ 54 is pending.
    pub fn pending_gpu_irq_54(&self) -> (r: bool)
        ensures
            r == bit32(self.spec_reg(), 16),
    {
        self.reg & (1u32 << 16) != 0
    }

    /// Returns true if the GPU IRQ 55 is pending.
    pub fn pending_gpu_irq_55(&self) -> (r: bool)
        ensures
            r == bit32(self.spec_reg(), 17),
    {
        self.reg & (1u32 << 17) != 0
    }

    /// Returns true if the GPU IRQ 56 is pending.
    pub fn pending_gpu_irq_56(&self) -> (r: bool)
        ensures
            r == bit32(self.spec_reg(), 18),
    {
        self.reg & (1u32 << 18) != 0
    }

    /// Returns true if the GPU IRQ 57 is pending.
    pub fn pending_gpu_irq_57(&self) -> (r: bool)
        ensures
            r == bit32(self.spec_reg(), 19),
    {
        self.reg & (1u32 << 19) != 0
    }

    /// Returns true if the GPU IRQ 62 is pending.
    pub fn pending_gpu_irq_62(&self) -> (r: bool)
        ensures
            r == bit32(self.spec_reg(), 20),
    {
        self.reg & (1u32 << 20) != 0
    }
}

/// IRQ status of the GPU, decoded from a snapshot of the two GPU pending
/// registers.
#[derive(Debug)]
pub struct GpuStatus {
    /// Value of the first GPU pending register: IRQs 0 to 31.
    reg0: u32,

    /// Value of the second GPU pending register: IRQs 32 to 63.
    reg1: u32,
}

/// Returns the IRQ status of the GPU for a snapshot of the two GPU pending
/// registers.
pub fn gpu_status(reg0: u32, reg1: u32) -> (r: GpuStatus)
    ensures
        r.spec_regs() == (reg0, reg1),
{
    GpuStatus { reg0, reg1 }
}

impl GpuStatus {
    /// The register snapshots, for specifications.
    pub closed spec fn spec_regs(self) -> (u32, u32) {
        (self.reg0, self.reg1)
    }

    /// Returns true if the provided IRQ source is pending. `src` must be a
    /// GPU IRQ.
    ///
    /// # Errors
    ///
    /// This function returns `Error::NotAGpuIrq` for the ARM-side sources.
    pub fn pending(&self, src: IrqSource) -> (r: Result<bool, Error>)
        requires
            src matches IrqSource::Gpu(irq) ==> irq.spec_value() < NGPUIRQS,
        ensures
            match src.spec_gpu_irq() {
                Some(n) => r == Ok::<bool, Error>(bit32(
                    if n < 32 {
                        self.spec_regs().0
                    } else {
                        self.spec_regs().1
                    },
                    (n % 32) as u32,
                )),
                None => r == Err::<bool, Error>(Error::NotAGpuIrq),
            },
    {
        let irq = match src.gpu_irq() {
            Ok(irq) => irq,
            Err(e) => {
                return Err(e);
            },
        };
        let reg = if irq.value < 32 {
            self.reg0
        } else {
            self.reg1
        };
        Ok(reg & (1u32 << ((irq.value % 32) as u32)) != 0)
    }
}

} // verus!
